//! Data model of the place-directory exchange.
//!
//! These are the records the directory service sends and receives, held as
//! plain values. The HTTP transport that fills them lives outside the
//! library; everything the discovery logic reads from them is modeled here.
//! Enumerated codes (languages, categories, radius units) are closed variants
//! with exact conversion tables.
use vstd::prelude::*;

pub mod details;
pub mod nearby_search;
pub mod photos;
pub mod reviews;

verus! {

/// A request body together with the directory's API key.
#[derive(Debug, Clone, PartialEq)]
pub struct WithApiKey<T> {
    pub key: String,
    pub data: T,
}

/// A directory-reported error.
#[derive(Debug, Clone, PartialEq)]
pub struct Error {
    pub message: String,
}

/// Paging metadata on a multi-page directory response.
#[derive(Debug, Clone, PartialEq)]
pub struct Paging {
    pub next: String,
    pub previous: String,
    pub results: i32,
    pub total_results: i32,
    pub skipped: i32,
}

/// The home area of a review's author.
#[derive(Debug, Clone, PartialEq)]
pub struct UserLocation {
    pub id: String,
    pub name: String,
}

/// A postal address as the directory reports it.
#[derive(Debug, Clone, PartialEq)]
pub struct Address {
    pub street1: String,
    pub street2: Option<String>,
    pub city: String,
    pub state: String,
    pub country: String,
    pub postalcode: String,
    pub address_string: String,
}

/// The directory's closed set of content languages.
#[derive(Debug, Clone, Copy, PartialEq, Eq, Structural)]
pub enum Language {
    Arabic,
    Chinese,
    ChineseTaiwan,
    Danish,
    Dutch,
    EnglishAustralia,
    EnglishCanada,
    EnglishHongKong,
    EnglishIndia,
    EnglishIreland,
    EnglishMalaysia,
    EnglishNewZealand,
    EnglishPhilippines,
    EnglishSingapore,
    EnglishSouthAfrica,
    EnglishUnitedKingdom,
    English,
    French,
    FrenchBelgium,
    FrenchCanada,
    FrenchSwitzerland,
    GermanAustria,
    German,
    Greek,
    Hebrew,
    Indonesian,
    Italian,
    ItalianSwitzerland,
    Japanese,
    Korean,
    Norwegian,
    PortuguesePortugal,
    Portuguese,
    Russian,
    SpanishArgentina,
    SpanishColombia,
    SpanishMexico,
    SpanishPeru,
    Spanish,
    SpanishVenezuela,
    SpanishChile,
    Swedish,
    Thai,
    Turkish,
    Vietnamese,
}

/// The wire code of each language.
pub open spec fn language_code(lang: Language) -> Seq<char> {
    match lang {
        Language::Arabic => "ar"@,
        Language::Chinese => "zh"@,
        Language::ChineseTaiwan => "zh_TW"@,
        Language::Danish => "da"@,
        Language::Dutch => "nl"@,
        Language::EnglishAustralia => "en_AU"@,
        Language::EnglishCanada => "en_CA"@,
        Language::EnglishHongKong => "en_HK"@,
        Language::EnglishIndia => "en_IN"@,
        Language::EnglishIreland => "en_IE"@,
        Language::EnglishMalaysia => "en_MY"@,
        Language::EnglishNewZealand => "en_NZ"@,
        Language::EnglishPhilippines => "en_PH"@,
        Language::EnglishSingapore => "en_SG"@,
        Language::EnglishSouthAfrica => "en_ZA"@,
        Language::EnglishUnitedKingdom => "en_UK"@,
        Language::English => "en"@,
        Language::French => "fr"@,
        Language::FrenchBelgium => "fr_BE"@,
        Language::FrenchCanada => "fr_CA"@,
        Language::FrenchSwitzerland => "fr_CH"@,
        Language::GermanAustria => "de_AT"@,
        Language::German => "de"@,
        Language::Greek => "el"@,
        Language::Hebrew => "iw"@,
        Language::Indonesian => "in"@,
        Language::Italian => "it"@,
        Language::ItalianSwitzerland => "it_CH"@,
        Language::Japanese => "ja"@,
        Language::Korean => "ko"@,
        Language::Norwegian => "no"@,
        Language::PortuguesePortugal => "pt_PT"@,
        Language::Portuguese => "pt"@,
        Language::Russian => "ru"@,
        Language::SpanishArgentina => "es_AR"@,
        Language::SpanishColombia => "es_CO"@,
        Language::SpanishMexico => "es_MX"@,
        Language::SpanishPeru => "es_PE"@,
        Language::Spanish => "es"@,
        Language::SpanishVenezuela => "es_VE"@,
        Language::SpanishChile => "es_CL"@,
        Language::Swedish => "sv"@,
        Language::Thai => "th"@,
        Language::Turkish => "tr"@,
        Language::Vietnamese => "vi"@,
    }
}

impl Language {
    /// The code sent on the wire for this language.
    pub fn code(&self) -> (s: String)
        ensures
            s@ == language_code(*self),
    {
        match self {
            Language::Arabic => "ar".to_owned(),
            Language::Chinese => "zh".to_owned(),
            Language::ChineseTaiwan => "zh_TW".to_owned(),
            Language::Danish => "da".to_owned(),
            Language::Dutch => "nl".to_owned(),
            Language::EnglishAustralia => "en_AU".to_owned(),
            Language::EnglishCanada => "en_CA".to_owned(),
            Language::EnglishHongKong => "en_HK".to_owned(),
            Language::EnglishIndia => "en_IN".to_owned(),
            Language::EnglishIreland => "en_IE".to_owned(),
            Language::EnglishMalaysia => "en_MY".to_owned(),
            Language::EnglishNewZealand => "en_NZ".to_owned(),
            Language::EnglishPhilippines => "en_PH".to_owned(),
            Language::EnglishSingapore => "en_SG".to_owned(),
            Language::EnglishSouthAfrica => "en_ZA".to_owned(),
            Language::EnglishUnitedKingdom => "en_UK".to_owned(),
            Language::English => "en".to_owned(),
            Language::French => "fr".to_owned(),
            Language::FrenchBelgium => "fr_BE".to_owned(),
            Language::FrenchCanada => "fr_CA".to_owned(),
            Language::FrenchSwitzerland => "fr_CH".to_owned(),
            Language::GermanAustria => "de_AT".to_owned(),
            Language::German => "de".to_owned(),
            Language::Greek => "el".to_owned(),
            Language::Hebrew => "iw".to_owned(),
            Language::Indonesian => "in".to_owned(),
            Language::Italian => "it".to_owned(),
            Language::ItalianSwitzerland => "it_CH".to_owned(),
            Language::Japanese => "ja".to_owned(),
            Language::Korean => "ko".to_owned(),
            Language::Norwegian => "no".to_owned(),
            Language::PortuguesePortugal => "pt_PT".to_owned(),
            Language::Portuguese => "pt".to_owned(),
            Language::Russian => "ru".to_owned(),
            Language::SpanishArgentina => "es_AR".to_owned(),
            Language::SpanishColombia => "es_CO".to_owned(),
            Language::SpanishMexico => "es_MX".to_owned(),
            Language::SpanishPeru => "es_PE".to_owned(),
            Language::Spanish => "es".to_owned(),
            Language::SpanishVenezuela => "es_VE".to_owned(),
            Language::SpanishChile => "es_CL".to_owned(),
            Language::Swedish => "sv".to_owned(),
            Language::Thai => "th".to_owned(),
            Language::Turkish => "tr".to_owned(),
            Language::Vietnamese => "vi".to_owned(),
        }
    }
}

} // verus!
