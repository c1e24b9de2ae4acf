use trip_maker::discovery::{Bias, Rating};
use trip_maker::geo::DistanceUnit;
use trip_maker::settings::{
    CheckSettingError, Setting, SettingsForm, SettingsFormInfo, SettingsFormValidationError,
    check_setting,
};

fn form() -> SettingsForm {
    SettingsForm {
        longitude: "-73.9857".to_owned(),
        latitude: "40.7484".to_owned(),
        distance_unit: "Kilometers".to_owned(),
        max_distance: "10".to_owned(),
        closeness_bias: "1".to_owned(),
        minimum_rating: "3.5".to_owned(),
        number_to_generate: "5".to_owned(),
    }
}

fn setting() -> Setting {
    Setting {
        longitude: None,
        latitude: None,
        max_distance: None,
        closeness_bias: None,
        minimum_rating: None,
        number_to_generate: None,
    }
}

#[test]
fn well_formed_form_validates() {
    let v = form().validate();
    assert_eq!(v.longitude, Ok(-73_985_700));
    assert_eq!(v.latitude, Ok(40_748_400));
    assert_eq!(v.distance_unit, DistanceUnit::Kilometers);
    assert_eq!(v.max_distance, Ok(10_000));
    assert_eq!(v.closeness_bias, Ok(Bias { millis: 1000 }));
    assert_eq!(v.minimum_rating, Ok(Rating { hundredths: 350 }));
    assert_eq!(v.number_to_generate, Ok(5));
    assert!(!v.has_error());
}

#[test]
fn unknown_unit_falls_back_to_miles() {
    let mut f = form();
    f.distance_unit = "Fathoms".to_owned();
    assert_eq!(f.validate().distance_unit, DistanceUnit::Miles);
}

#[test]
fn every_unit_name_is_recognised() {
    for (name, unit) in [
        ("Centimeters", DistanceUnit::Centimeters),
        ("Meters", DistanceUnit::Meters),
        ("Kilometers", DistanceUnit::Kilometers),
        ("Inches", DistanceUnit::Inches),
        ("Feet", DistanceUnit::Feet),
        ("Yards", DistanceUnit::Yards),
        ("Miles", DistanceUnit::Miles),
    ] {
        let mut f = form();
        f.distance_unit = name.to_owned();
        assert_eq!(f.validate().distance_unit, unit);
    }
}

#[test]
fn negative_distance_is_out_of_range() {
    let mut f = form();
    f.max_distance = "-1".to_owned();
    let v = f.validate();
    assert_eq!(v.max_distance, Err(SettingsFormValidationError::OutOfRange));
    assert!(v.has_error());
}

#[test]
fn unreadable_field_is_a_parse_error() {
    let mut f = form();
    f.latitude = "north".to_owned();
    let v = f.validate();
    assert_eq!(v.latitude, Err(SettingsFormValidationError::ParseError));
    assert!(v.has_error());
}

#[test]
fn bias_bounds_are_inclusive() {
    let mut f = form();
    f.closeness_bias = "0.2".to_owned();
    assert_eq!(f.validate().closeness_bias, Ok(Bias { millis: 200 }));
    f.closeness_bias = "5".to_owned();
    assert_eq!(f.validate().closeness_bias, Ok(Bias { millis: 5000 }));
    f.closeness_bias = "0.199".to_owned();
    assert_eq!(
        f.validate().closeness_bias,
        Err(SettingsFormValidationError::OutOfRange)
    );
    f.closeness_bias = "5.001".to_owned();
    assert_eq!(
        f.validate().closeness_bias,
        Err(SettingsFormValidationError::OutOfRange)
    );
}

#[test]
fn rating_bounds_are_inclusive() {
    let mut f = form();
    f.minimum_rating = "0".to_owned();
    assert_eq!(f.validate().minimum_rating, Ok(Rating { hundredths: 0 }));
    f.minimum_rating = "5".to_owned();
    assert_eq!(f.validate().minimum_rating, Ok(Rating { hundredths: 500 }));
    f.minimum_rating = "5.01".to_owned();
    assert_eq!(
        f.validate().minimum_rating,
        Err(SettingsFormValidationError::OutOfRange)
    );
    f.minimum_rating = "-0.5".to_owned();
    assert_eq!(
        f.validate().minimum_rating,
        Err(SettingsFormValidationError::OutOfRange)
    );
}

#[test]
fn count_capped_at_fifteen() {
    let mut f = form();
    f.number_to_generate = "15".to_owned();
    assert_eq!(f.validate().number_to_generate, Ok(15));
    f.number_to_generate = "16".to_owned();
    assert_eq!(
        f.validate().number_to_generate,
        Err(SettingsFormValidationError::OutOfRange)
    );
    f.number_to_generate = "2.5".to_owned();
    assert_eq!(
        f.validate().number_to_generate,
        Err(SettingsFormValidationError::ParseError)
    );
}

#[test]
fn defaults_are_ten_miles_five_places() {
    let d = SettingsFormInfo::default();
    assert_eq!(d.longitude, 0);
    assert_eq!(d.latitude, 0);
    assert_eq!(d.distance_unit, DistanceUnit::Miles);
    assert_eq!(d.max_distance, 10_000);
    assert_eq!(d.closeness_bias, Bias { millis: 1000 });
    assert_eq!(d.minimum_rating, Rating { hundredths: 0 });
    assert_eq!(d.number_to_generate, 5);
}

#[test]
fn to_strings_spells_canonical_decimals() {
    let info = SettingsFormInfo {
        longitude: -73_985_700,
        latitude: 40_748_400,
        distance_unit: DistanceUnit::Kilometers,
        max_distance: 10_000,
        closeness_bias: Bias { millis: 1000 },
        minimum_rating: Rating { hundredths: 350 },
        number_to_generate: 5,
    };
    let f = info.to_strings();
    assert_eq!(f.longitude, "-73.9857");
    assert_eq!(f.latitude, "40.7484");
    assert_eq!(f.distance_unit, "Kilometers");
    assert_eq!(f.max_distance, "10");
    assert_eq!(f.closeness_bias, "1");
    assert_eq!(f.minimum_rating, "3.5");
    assert_eq!(f.number_to_generate, "5");
}

#[test]
fn to_strings_then_validate_round_trips() {
    let info = SettingsFormInfo {
        longitude: -1,
        latitude: 89_999_999,
        distance_unit: DistanceUnit::Feet,
        max_distance: 123_456,
        closeness_bias: Bias { millis: 4_999 },
        minimum_rating: Rating { hundredths: 1 },
        number_to_generate: 15,
    };
    let v = info.to_strings().validate();
    assert_eq!(v.longitude, Ok(info.longitude));
    assert_eq!(v.latitude, Ok(info.latitude));
    assert_eq!(v.distance_unit, info.distance_unit);
    assert_eq!(v.max_distance, Ok(info.max_distance));
    assert_eq!(v.closeness_bias, Ok(info.closeness_bias));
    assert_eq!(v.minimum_rating, Ok(info.minimum_rating));
    assert_eq!(v.number_to_generate, Ok(info.number_to_generate));
    assert!(!v.has_error());
}

#[test]
fn default_settings_round_trip_through_text() {
    let v = SettingsFormInfo::default().to_strings().validate();
    assert!(!v.has_error());
    assert_eq!(v.max_distance, Ok(10_000));
    assert_eq!(v.distance_unit, DistanceUnit::Miles);
}

#[test]
fn check_setting_reads_the_triggering_field() {
    let mut s = setting();
    s.closeness_bias = Some("2.5".to_owned());
    assert_eq!(check_setting(Some("closeness_bias".to_owned()), s), Ok(()));

    let mut s = setting();
    s.closeness_bias = Some("9".to_owned());
    assert_eq!(
        check_setting(Some("closeness_bias".to_owned()), s),
        Err(CheckSettingError::OutOfRange)
    );
}

#[test]
fn check_setting_missing_data() {
    assert_eq!(
        check_setting(Some("latitude".to_owned()), setting()),
        Err(CheckSettingError::DataNotFound)
    );
}

#[test]
fn check_setting_unknown_field() {
    assert_eq!(
        check_setting(Some("altitude".to_owned()), setting()),
        Err(CheckSettingError::UnknownField)
    );
    assert_eq!(
        check_setting(None, setting()),
        Err(CheckSettingError::UnknownField)
    );
}

#[test]
fn check_setting_parse_error() {
    let mut s = setting();
    s.number_to_generate = Some("many".to_owned());
    assert_eq!(
        check_setting(Some("number_to_generate".to_owned()), s),
        Err(CheckSettingError::ParseError)
    );
}

#[test]
fn check_setting_coordinates_accept_any_decimal() {
    let mut s = setting();
    s.longitude = Some("-179.999999".to_owned());
    assert_eq!(check_setting(Some("longitude".to_owned()), s), Ok(()));
}
