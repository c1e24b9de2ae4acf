//! The directory's nearby-search operation: its request parameters and the
//! candidates it returns.
use vstd::prelude::*;
use crate::trip_advisor::{Address, Error, Language};

verus! {

/// Parameters of a nearby search, as sent on the wire.
#[derive(Debug, Clone, PartialEq)]
pub struct Params {
    pub lat_long: String,
    pub category: Option<Category>,
    pub phone: Option<String>,
    pub address: Option<String>,
    pub radius: Option<String>,
    pub radius_unit: Option<RadiusUnit>,
    pub language: Option<Language>,
}

/// The directory's closed set of search categories.
#[derive(Debug, Clone, Copy, PartialEq, Eq, Structural)]
pub enum Category {
    Hotels,
    Attractions,
    Restaurants,
    Geos,
}

/// The wire code of each category.
pub open spec fn category_code(c: Category) -> Seq<char> {
    match c {
        Category::Hotels => "hotels"@,
        Category::Attractions => "attractions"@,
        Category::Restaurants => "restaurants"@,
        Category::Geos => "geos"@,
    }
}

impl Category {
    /// The code sent on the wire for this category.
    pub fn code(&self) -> (s: String)
        ensures
            s@ == category_code(*self),
    {
        match self {
            Category::Hotels => "hotels".to_owned(),
            Category::Attractions => "attractions".to_owned(),
            Category::Restaurants => "restaurants".to_owned(),
            Category::Geos => "geos".to_owned(),
        }
    }
}

/// The directory's closed set of radius units.
#[derive(Debug, Clone, Copy, PartialEq, Eq, Structural)]
pub enum RadiusUnit {
    Kilometers,
    Miles,
    Meters,
}

/// The wire code of each radius unit.
pub open spec fn radius_unit_code(u: RadiusUnit) -> Seq<char> {
    match u {
        RadiusUnit::Kilometers => "km"@,
        RadiusUnit::Miles => "mi"@,
        RadiusUnit::Meters => "m"@,
    }
}

impl RadiusUnit {
    /// The code sent on the wire for this unit.
    pub fn code(&self) -> (s: String)
        ensures
            s@ == radius_unit_code(*self),
    {
        match self {
            RadiusUnit::Kilometers => "km".to_owned(),
            RadiusUnit::Miles => "mi".to_owned(),
            RadiusUnit::Meters => "m".to_owned(),
        }
    }
}

/// A nearby-search response: an ordered candidate list, or a
/// directory-reported error.
#[derive(Debug, Clone, PartialEq)]
pub enum Response {
    Data(Vec<Location>),
    Error(Error),
}

impl Response {
    /// The response as a `Result`, consuming it.
    pub fn into_result(self) -> (r: Result<Vec<Location>, Error>)
        ensures
            match self {
                Response::Data(data) => r == Ok::<Vec<Location>, Error>(data),
                Response::Error(err) => r == Err::<Vec<Location>, Error>(err),
            },
    {
        match self {
            Response::Data(data) => Ok(data),
            Response::Error(err) => Err(err),
        }
    }

    /// The response as a `Result`; alias kept beside `into_result` because
    /// both spellings are in use by callers.
    pub fn to_result(self) -> (r: Result<Vec<Location>, Error>)
        ensures
            match self {
                Response::Data(data) => r == Ok::<Vec<Location>, Error>(data),
                Response::Error(err) => r == Err::<Vec<Location>, Error>(err),
            },
    {
        self.into_result()
    }
}

/// One search hit: a lightweight, ephemeral candidate to be detailed.
#[derive(Debug, Clone, PartialEq)]
pub struct Location {
    pub location_id: String,
    pub name: String,
    pub distance: String,
    pub bearing: String,
    pub address_obj: Address,
}

} // verus!
