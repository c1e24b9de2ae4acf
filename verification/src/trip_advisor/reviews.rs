//! The directory's review-listing operation: its parameters and the parts of
//! a review record the library models as plain values.
use vstd::prelude::*;
use crate::trip_advisor::Language;

verus! {

/// Parameters of a review listing.
#[derive(Debug, Clone, PartialEq)]
pub struct Params {
    pub language: Option<Language>,
    pub limit: Option<u32>,
    pub offset: Option<u32>,
}

/// The place owner's reply to a review.
#[derive(Debug, Clone, PartialEq)]
pub struct OwnerResponse {
    pub id: i32,
    pub lang: Language,
    pub text: String,
    pub title: String,
    pub author: String,
    pub published_date: String,
}

} // verus!
