//! The settings form: raw text fields validated into fixed-point values.
//!
//! The form arrives as text, one string per field. Validation reads each
//! field exactly — coordinates at microdegree scale, distances in
//! thousandths of the chosen unit, the bias in thousandths, the rating in
//! hundredths — and checks the same ranges the form promises: a
//! non-negative distance, a bias between one fifth and five, a rating
//! between zero and five, and at most fifteen places per request.
use vstd::prelude::*;
use vstd::string::StringSliceAdditionalSpecFns;
use crate::decimal::{integer_value, signed_scaled};
use crate::discovery::{Bias, Rating};
use crate::geo::DistanceUnit;

verus! {

/// One field's failure: unreadable text, or a value out of range.
#[derive(Debug, Clone, Copy, PartialEq, Eq, Structural)]
pub enum SettingsFormValidationError {
    ParseError,
    OutOfRange,
}

/// The form as submitted: every field raw text.
#[derive(Debug, Clone, PartialEq)]
pub struct SettingsForm {
    pub longitude: String,
    pub latitude: String,
    pub distance_unit: String,
    pub max_distance: String,
    pub closeness_bias: String,
    pub minimum_rating: String,
    pub number_to_generate: String,
}

/// A coordinate field: any signed decimal, read in microdegrees.
pub open spec fn coordinate_field(s: Seq<char>) -> Result<i64, SettingsFormValidationError> {
    match signed_scaled(vstd::utf8::encode_utf8(s), 6) {
        Some(v) => Ok(v as i64),
        None => Err(SettingsFormValidationError::ParseError),
    }
}

/// The unit field: its written name, with any unknown name read as miles.
pub open spec fn unit_field(s: Seq<char>) -> DistanceUnit {
    if s == "Centimeters"@ {
        DistanceUnit::Centimeters
    } else if s == "Meters"@ {
        DistanceUnit::Meters
    } else if s == "Kilometers"@ {
        DistanceUnit::Kilometers
    } else if s == "Inches"@ {
        DistanceUnit::Inches
    } else if s == "Feet"@ {
        DistanceUnit::Feet
    } else if s == "Yards"@ {
        DistanceUnit::Yards
    } else {
        DistanceUnit::Miles
    }
}

/// The distance field: a non-negative decimal, read in thousandths of the
/// chosen unit.
pub open spec fn distance_field(s: Seq<char>) -> Result<u64, SettingsFormValidationError> {
    match signed_scaled(vstd::utf8::encode_utf8(s), 3) {
        Some(v) => if v >= 0 {
            Ok(v as u64)
        } else {
            Err(SettingsFormValidationError::OutOfRange)
        },
        None => Err(SettingsFormValidationError::ParseError),
    }
}

/// The bias field: a decimal between one fifth and five, in thousandths.
pub open spec fn bias_field(s: Seq<char>) -> Result<Bias, SettingsFormValidationError> {
    match signed_scaled(vstd::utf8::encode_utf8(s), 3) {
        Some(v) => if 200 <= v <= 5000 {
            Ok(Bias { millis: v as u32 })
        } else {
            Err(SettingsFormValidationError::OutOfRange)
        },
        None => Err(SettingsFormValidationError::ParseError),
    }
}

/// The rating field: a decimal between zero and five, in hundredths.
pub open spec fn rating_field(s: Seq<char>) -> Result<Rating, SettingsFormValidationError> {
    match signed_scaled(vstd::utf8::encode_utf8(s), 2) {
        Some(v) => if 0 <= v <= 500 {
            Ok(Rating { hundredths: v as u64 })
        } else {
            Err(SettingsFormValidationError::OutOfRange)
        },
        None => Err(SettingsFormValidationError::ParseError),
    }
}

/// The count field: a whole number of at most fifteen.
pub open spec fn count_field(s: Seq<char>) -> Result<usize, SettingsFormValidationError> {
    match integer_value(vstd::utf8::encode_utf8(s)) {
        Some(v) => if v <= 15 {
            Ok(v as usize)
        } else {
            Err(SettingsFormValidationError::OutOfRange)
        },
        None => Err(SettingsFormValidationError::ParseError),
    }
}

/// The outcome of validating every field of the form.
#[derive(Debug, Clone, Copy, PartialEq)]
pub struct SettingsFormValidation {
    pub longitude: Result<i64, SettingsFormValidationError>,
    pub latitude: Result<i64, SettingsFormValidationError>,
    pub distance_unit: DistanceUnit,
    pub max_distance: Result<u64, SettingsFormValidationError>,
    pub closeness_bias: Result<Bias, SettingsFormValidationError>,
    pub minimum_rating: Result<Rating, SettingsFormValidationError>,
    pub number_to_generate: Result<usize, SettingsFormValidationError>,
}

impl SettingsForm {
    /// Validate every field, keeping each field's own verdict.
    pub fn validate(&self) -> (v: SettingsFormValidation)
        ensures
            v.longitude == coordinate_field(self.longitude@),
            v.latitude == coordinate_field(self.latitude@),
            v.distance_unit == unit_field(self.distance_unit@),
            v.max_distance == distance_field(self.max_distance@),
            v.closeness_bias == bias_field(self.closeness_bias@),
            v.minimum_rating == rating_field(self.minimum_rating@),
            v.number_to_generate == count_field(self.number_to_generate@),
    {
        SettingsFormValidation {
            longitude: check_coordinate_field(&self.longitude),
            latitude: check_coordinate_field(&self.latitude),
            distance_unit: check_unit_field(&self.distance_unit),
            max_distance: check_distance_field(&self.max_distance),
            closeness_bias: check_bias_field(&self.closeness_bias),
            minimum_rating: check_rating_field(&self.minimum_rating),
            number_to_generate: check_count_field(&self.number_to_generate),
        }
    }
}

impl SettingsFormValidation {
    /// Whether any field failed.
    pub fn has_error(&self) -> (b: bool)
        ensures
            b == (self.longitude is Err || self.latitude is Err || self.max_distance is Err
                || self.closeness_bias is Err || self.minimum_rating is Err
                || self.number_to_generate is Err),
    {
        self.longitude.is_err() || self.latitude.is_err() || self.max_distance.is_err()
            || self.closeness_bias.is_err() || self.minimum_rating.is_err()
            || self.number_to_generate.is_err()
    }
}

fn check_coordinate_field(s: &String) -> (r: Result<i64, SettingsFormValidationError>)
    ensures
        r == coordinate_field(s@),
{
    match crate::decimal::parse_signed(s.as_str(), 6) {
        Some(v) => Ok(v),
        None => Err(SettingsFormValidationError::ParseError),
    }
}

fn check_unit_field(s: &String) -> (u: DistanceUnit)
    ensures
        u == unit_field(s@),
{
    if s.eq(&String::from_str("Centimeters")) {
        DistanceUnit::Centimeters
    } else if s.eq(&String::from_str("Meters")) {
        DistanceUnit::Meters
    } else if s.eq(&String::from_str("Kilometers")) {
        DistanceUnit::Kilometers
    } else if s.eq(&String::from_str("Inches")) {
        DistanceUnit::Inches
    } else if s.eq(&String::from_str("Feet")) {
        DistanceUnit::Feet
    } else if s.eq(&String::from_str("Yards")) {
        DistanceUnit::Yards
    } else {
        DistanceUnit::Miles
    }
}

fn check_distance_field(s: &String) -> (r: Result<u64, SettingsFormValidationError>)
    ensures
        r == distance_field(s@),
{
    match crate::decimal::parse_signed(s.as_str(), 3) {
        Some(v) => if v >= 0 {
            Ok(v as u64)
        } else {
            Err(SettingsFormValidationError::OutOfRange)
        },
        None => Err(SettingsFormValidationError::ParseError),
    }
}

fn check_bias_field(s: &String) -> (r: Result<Bias, SettingsFormValidationError>)
    ensures
        r == bias_field(s@),
{
    match crate::decimal::parse_signed(s.as_str(), 3) {
        Some(v) => if 200 <= v && v <= 5000 {
            Ok(Bias { millis: v as u32 })
        } else {
            Err(SettingsFormValidationError::OutOfRange)
        },
        None => Err(SettingsFormValidationError::ParseError),
    }
}

fn check_rating_field(s: &String) -> (r: Result<Rating, SettingsFormValidationError>)
    ensures
        r == rating_field(s@),
{
    match crate::decimal::parse_signed(s.as_str(), 2) {
        Some(v) => if 0 <= v && v <= 500 {
            Ok(Rating { hundredths: v as u64 })
        } else {
            Err(SettingsFormValidationError::OutOfRange)
        },
        None => Err(SettingsFormValidationError::ParseError),
    }
}

fn check_count_field(s: &String) -> (r: Result<usize, SettingsFormValidationError>)
    ensures
        r == count_field(s@),
{
    match crate::decimal::parse_integer(s.as_str()) {
        Some(v) => if v <= 15 {
            Ok(v as usize)
        } else {
            Err(SettingsFormValidationError::OutOfRange)
        },
        None => Err(SettingsFormValidationError::ParseError),
    }
}

/// The validated settings, in the library's fixed-point units.
#[derive(Debug, Clone, Copy, PartialEq, Eq, Structural)]
pub struct SettingsFormInfo {
    pub longitude: i64,
    pub latitude: i64,
    pub distance_unit: DistanceUnit,
    pub max_distance: u64,
    pub closeness_bias: Bias,
    pub minimum_rating: Rating,
    pub number_to_generate: usize,
}

impl Default for SettingsFormInfo {
    /// The form's starting values: the origin, ten miles, a neutral bias,
    /// no rating floor, five places.
    fn default() -> (d: Self)
        ensures
            d == (SettingsFormInfo {
                longitude: 0,
                latitude: 0,
                distance_unit: DistanceUnit::Miles,
                max_distance: 10_000,
                closeness_bias: Bias { millis: 1000 },
                minimum_rating: Rating { hundredths: 0 },
                number_to_generate: 5,
            }),
    {
        SettingsFormInfo {
            longitude: 0,
            latitude: 0,
            distance_unit: DistanceUnit::Miles,
            max_distance: 10_000,
            closeness_bias: Bias { millis: 1000 },
            minimum_rating: Rating { hundredths: 0 },
            number_to_generate: 5,
        }
    }
}

impl SettingsFormInfo {
    /// Spell every setting back out as form text. The text is canonical and
    /// exact: validating the produced form reads back precisely these
    /// settings.
    pub fn to_strings(&self) -> (f: SettingsForm)
        requires
            -1_000_000_000_000_000 < self.longitude < 1_000_000_000_000_000,
            -1_000_000_000_000_000 < self.latitude < 1_000_000_000_000_000,
            self.max_distance < 1_000_000_000_000,
            200 <= self.closeness_bias.millis <= 5000,
            self.minimum_rating.hundredths <= 500,
            self.number_to_generate <= 15,
        ensures
            coordinate_field(f.longitude@) == Ok::<i64, SettingsFormValidationError>(
                self.longitude,
            ),
            coordinate_field(f.latitude@) == Ok::<i64, SettingsFormValidationError>(self.latitude),
            unit_field(f.distance_unit@) == self.distance_unit,
            distance_field(f.max_distance@) == Ok::<u64, SettingsFormValidationError>(
                self.max_distance,
            ),
            bias_field(f.closeness_bias@) == Ok::<Bias, SettingsFormValidationError>(
                self.closeness_bias,
            ),
            rating_field(f.minimum_rating@) == Ok::<Rating, SettingsFormValidationError>(
                self.minimum_rating,
            ),
            count_field(f.number_to_generate@) == Ok::<usize, SettingsFormValidationError>(
                self.number_to_generate,
            ),
    {
        proof {
            crate::decimal::lemma_pow10_concrete();
        }
        let longitude = crate::decimal::format_coordinate(self.longitude);
        let latitude = crate::decimal::format_coordinate(self.latitude);
        let distance_unit = unit_name(self.distance_unit);
        let max_distance = crate::decimal::format_scaled(self.max_distance, 3);
        let closeness_bias = crate::decimal::format_scaled(self.closeness_bias.millis as u64, 3);
        let minimum_rating = crate::decimal::format_scaled(self.minimum_rating.hundredths, 2);
        let number_to_generate = crate::decimal::format_scaled(self.number_to_generate as u64, 0);
        proof {
            crate::decimal::lemma_wf_first_digit(vstd::utf8::encode_utf8(max_distance@));
            crate::decimal::lemma_wf_first_digit(vstd::utf8::encode_utf8(closeness_bias@));
            crate::decimal::lemma_wf_first_digit(vstd::utf8::encode_utf8(minimum_rating@));
        }
        SettingsForm {
            longitude,
            latitude,
            distance_unit,
            max_distance,
            closeness_bias,
            minimum_rating,
            number_to_generate,
        }
    }
}

/// The written name of each unit, as the form spells it.
pub fn unit_name(u: DistanceUnit) -> (s: String)
    ensures
        unit_field(s@) == u,
{
    proof {
        reveal_strlit("Centimeters");
        reveal_strlit("Meters");
        reveal_strlit("Kilometers");
        reveal_strlit("Inches");
        reveal_strlit("Feet");
        reveal_strlit("Yards");
        reveal_strlit("Miles");
        assert("Centimeters"@.len() == 11);
        assert("Meters"@.len() == 6);
        assert("Kilometers"@.len() == 10);
        assert("Inches"@.len() == 6);
        assert("Feet"@.len() == 4);
        assert("Yards"@.len() == 5);
        assert("Miles"@.len() == 5);
        assert("Meters"@ != "Inches"@) by {
            assert("Meters"@[0] == 'M');
            assert("Inches"@[0] == 'I');
        }
        assert("Yards"@ != "Miles"@) by {
            assert("Yards"@[0] == 'Y');
            assert("Miles"@[0] == 'M');
        }
    }
    match u {
        DistanceUnit::Centimeters => "Centimeters".to_owned(),
        DistanceUnit::Meters => "Meters".to_owned(),
        DistanceUnit::Kilometers => "Kilometers".to_owned(),
        DistanceUnit::Inches => "Inches".to_owned(),
        DistanceUnit::Feet => "Feet".to_owned(),
        DistanceUnit::Yards => "Yards".to_owned(),
        DistanceUnit::Miles => "Miles".to_owned(),
    }
}

/// One field of the form submitted alone, for a live check.
#[derive(Debug, Clone, PartialEq)]
pub struct Setting {
    pub longitude: Option<String>,
    pub latitude: Option<String>,
    pub max_distance: Option<String>,
    pub closeness_bias: Option<String>,
    pub minimum_rating: Option<String>,
    pub number_to_generate: Option<String>,
}

/// How a single-field check can fail.
#[derive(Debug, Clone, Copy, PartialEq, Eq, Structural)]
pub enum CheckSettingError {
    UnknownField,
    DataNotFound,
    OutOfRange,
    ParseError,
}

/// A field verdict reduced to the single-field check's error kind.
pub open spec fn field_verdict<T>(
    field: Option<String>,
    check: spec_fn(Seq<char>) -> Result<T, SettingsFormValidationError>,
) -> Result<(), CheckSettingError> {
    match field {
        None => Err(CheckSettingError::DataNotFound),
        Some(s) => match check(s@) {
            Ok(_) => Ok(()),
            Err(SettingsFormValidationError::ParseError) => Err(CheckSettingError::ParseError),
            Err(SettingsFormValidationError::OutOfRange) => Err(CheckSettingError::OutOfRange),
        },
    }
}

/// What the single-field check decides, by the triggering field's name.
pub open spec fn check_setting_verdict(trigger: Option<String>, setting: Setting) -> Result<
    (),
    CheckSettingError,
> {
    match trigger {
        None => Err(CheckSettingError::UnknownField),
        Some(t) => {
            if t@ == "longitude"@ {
                field_verdict(setting.longitude, |s: Seq<char>| coordinate_field(s))
            } else if t@ == "latitude"@ {
                field_verdict(setting.latitude, |s: Seq<char>| coordinate_field(s))
            } else if t@ == "max_distance"@ {
                field_verdict(setting.max_distance, |s: Seq<char>| distance_field(s))
            } else if t@ == "closeness_bias"@ {
                field_verdict(setting.closeness_bias, |s: Seq<char>| bias_field(s))
            } else if t@ == "minimum_rating"@ {
                field_verdict(setting.minimum_rating, |s: Seq<char>| rating_field(s))
            } else if t@ == "number_to_generate"@ {
                field_verdict(setting.number_to_generate, |s: Seq<char>| count_field(s))
            } else {
                Err(CheckSettingError::UnknownField)
            }
        },
    }
}

/// Check the one field named by `trigger` against its own rule.
pub fn check_setting(trigger: Option<String>, setting: Setting) -> (r: Result<
    (),
    CheckSettingError,
>)
    ensures
        r == check_setting_verdict(trigger, setting),
{
    let t = match &trigger {
        None => {
            return Err(CheckSettingError::UnknownField);
        },
        Some(t) => t,
    };
    if t.eq(&String::from_str("longitude")) {
        match &setting.longitude {
            None => Err(CheckSettingError::DataNotFound),
            Some(s) => reduce_verdict(check_coordinate_field(s)),
        }
    } else if t.eq(&String::from_str("latitude")) {
        match &setting.latitude {
            None => Err(CheckSettingError::DataNotFound),
            Some(s) => reduce_verdict(check_coordinate_field(s)),
        }
    } else if t.eq(&String::from_str("max_distance")) {
        match &setting.max_distance {
            None => Err(CheckSettingError::DataNotFound),
            Some(s) => reduce_verdict(check_distance_field(s)),
        }
    } else if t.eq(&String::from_str("closeness_bias")) {
        match &setting.closeness_bias {
            None => Err(CheckSettingError::DataNotFound),
            Some(s) => reduce_verdict(check_bias_field(s)),
        }
    } else if t.eq(&String::from_str("minimum_rating")) {
        match &setting.minimum_rating {
            None => Err(CheckSettingError::DataNotFound),
            Some(s) => reduce_verdict(check_rating_field(s)),
        }
    } else if t.eq(&String::from_str("number_to_generate")) {
        match &setting.number_to_generate {
            None => Err(CheckSettingError::DataNotFound),
            Some(s) => reduce_verdict(check_count_field(s)),
        }
    } else {
        Err(CheckSettingError::UnknownField)
    }
}

/// Drop a field verdict's value, keeping only the error kind.
fn reduce_verdict<T>(r: Result<T, SettingsFormValidationError>) -> (v: Result<
    (),
    CheckSettingError,
>)
    ensures
        v == (match r {
            Ok(_) => Ok::<(), CheckSettingError>(()),
            Err(SettingsFormValidationError::ParseError) => Err(CheckSettingError::ParseError),
            Err(SettingsFormValidationError::OutOfRange) => Err(CheckSettingError::OutOfRange),
        }),
{
    match r {
        Ok(_) => Ok(()),
        Err(SettingsFormValidationError::ParseError) => Err(CheckSettingError::ParseError),
        Err(SettingsFormValidationError::OutOfRange) => Err(CheckSettingError::OutOfRange),
    }
}

} // verus!
