//! The directory's detail-fetch operation: its parameters and the full place
//! record it returns.
use vstd::prelude::*;
use crate::trip_advisor::{Address, Error, Language};

verus! {

/// Parameters of a detail fetch.
#[derive(Debug, Clone, PartialEq)]
pub struct Params {
    pub language: Option<Language>,
    pub currency: Option<String>,
}

/// A detail response: the full record, or a directory-reported error.
#[derive(Debug, Clone, PartialEq)]
pub enum Response {
    Error(Error),
    Data(Box<Details>),
}

impl Response {
    /// The response as a `Result`, consuming it.
    pub fn into_result(self) -> (r: Result<Box<Details>, Error>)
        ensures
            match self {
                Response::Data(data) => r == Ok::<Box<Details>, Error>(data),
                Response::Error(err) => r == Err::<Box<Details>, Error>(err),
            },
    {
        match self {
            Response::Data(data) => Ok(data),
            Response::Error(err) => Err(err),
        }
    }
}

/// A full place record. The discovery loop reads `name`, `description`,
/// `website`, `address_obj`, `rating` and the coordinate texts; the rest is
/// carried through for presentation.
#[derive(Debug, Clone, PartialEq)]
pub struct Details {
    pub location_id: String,
    pub name: String,
    pub description: Option<String>,
    pub web_url: Option<String>,
    pub address_obj: Address,
    pub ancestors: Vec<Ancestor>,
    pub latitude: String,
    pub longitude: String,
    pub timezone: String,
    pub email: Option<String>,
    pub phone: Option<String>,
    pub website: Option<String>,
    pub write_review: Option<String>,
    pub ranking_data: Option<RankingData>,
    pub rating: Option<String>,
    pub rating_image_url: Option<String>,
    pub num_review: Option<String>,
    pub review_rating_count: Option<ReviewRatingCount>,
    pub photo_count: String,
    pub see_all_photos: String,
    pub price_level: Option<String>,
    pub hours: Option<Hours>,
    pub amenities: Option<Vec<String>>,
    pub features: Option<Vec<String>>,
    pub cuisine: Option<Vec<Name>>,
    pub parent_brand: Option<String>,
    pub brand: Option<String>,
    pub category: Option<Name>,
    pub subcategory: Vec<Name>,
    pub group: Option<Vec<Group>>,
    pub styles: Option<Vec<String>>,
    pub neighborhood_info: Vec<Name>,
    pub trip_types: Vec<TripType>,
    pub awards: Vec<Award>,
}

/// An enclosing geographic area of a place.
#[derive(Debug, Clone, PartialEq)]
pub struct Ancestor {
    pub abbrv: Option<String>,
    pub level: String,
    pub name: String,
    pub location_id: String,
}

/// A place's ranking within its area.
#[derive(Debug, Clone, PartialEq)]
pub struct RankingData {
    pub geo_location_id: String,
    pub ranking_string: String,
    pub geo_location_name: String,
    pub ranking_out_of: String,
    pub ranking: String,
}

/// Review counts per star value.
#[derive(Debug, Clone, PartialEq)]
pub struct ReviewRatingCount {
    pub one: String,
    pub two: String,
    pub three: String,
    pub four: String,
    pub five: String,
}

/// Opening hours.
#[derive(Debug, Clone, PartialEq)]
pub struct Hours {
    pub periods: Vec<Period>,
    pub weekday_text: Vec<String>,
}

/// One open-close span.
#[derive(Debug, Clone, PartialEq)]
pub struct Period {
    pub open: DayTime,
    pub close: DayTime,
}

/// A weekday and a wall-clock time.
#[derive(Debug, Clone, PartialEq)]
pub struct DayTime {
    pub day: i32,
    pub time: String,
}

/// A named item, optionally localized.
#[derive(Debug, Clone, PartialEq)]
pub struct Name {
    pub name: String,
    pub localized_name: Option<String>,
}

/// A named group of categories.
#[derive(Debug, Clone, PartialEq)]
pub struct Group {
    pub name: Name,
    pub categories: Vec<Name>,
}

/// A trip type with its review count.
#[derive(Debug, Clone, PartialEq)]
pub struct TripType {
    pub name: Name,
    pub value: String,
}

/// An award the place has received.
#[derive(Debug, Clone, PartialEq)]
pub struct Award {
    pub award_type: String,
    pub year: String,
    pub images: AwardImage,
    pub categories: Vec<String>,
    pub display_name: String,
}

/// Award badge images by size.
#[derive(Debug, Clone, PartialEq)]
pub struct AwardImage {
    pub tiny: String,
    pub small: String,
    pub large: String,
}

} // verus!
