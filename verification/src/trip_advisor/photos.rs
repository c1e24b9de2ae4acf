//! The directory's photo-listing operation: its parameters and the image
//! records it returns.
use vstd::prelude::*;
use crate::trip_advisor::Language;

verus! {

/// Parameters of a photo listing.
#[derive(Debug, Clone, PartialEq)]
pub struct Params {
    pub language: Option<Language>,
    pub limit: Option<u32>,
    pub offset: Option<u32>,
    pub source: Option<Source>,
}

/// Who contributed a photo.
#[derive(Debug, Clone, Copy, PartialEq, Eq, Structural)]
pub enum Source {
    Expert,
    Management,
    Traveler,
}

/// One rendition of an image.
#[derive(Debug, Clone, PartialEq)]
pub struct ImageProps {
    pub width: u32,
    pub height: u32,
    pub url: String,
}

/// Where an image came from.
#[derive(Debug, Clone, PartialEq)]
pub struct ImageSource {
    pub name: String,
    pub localized_name: String,
}

} // verus!
