use trip_maker::decimal::{
    format_coordinate, format_scaled, parse_coordinate, parse_integer, parse_rating, parse_scaled,
    parse_signed,
};

#[test]
fn rating_whole_number() {
    assert_eq!(parse_rating("4"), 400);
    assert_eq!(parse_rating("0"), 0);
    assert_eq!(parse_rating("5"), 500);
}

#[test]
fn rating_one_decimal() {
    assert_eq!(parse_rating("4.5"), 450);
    assert_eq!(parse_rating("3.0"), 300);
}

#[test]
fn rating_two_decimals() {
    assert_eq!(parse_rating("4.25"), 425);
}

#[test]
fn rating_extra_decimals_round_toward_zero() {
    assert_eq!(parse_rating("4.999"), 499);
    assert_eq!(parse_rating("0.005"), 0);
}

#[test]
fn rating_short_fraction_is_padded() {
    assert_eq!(parse_rating("4.5"), 450);
    assert_eq!(parse_scaled("4.5", 3), Some(4500));
}

#[test]
fn malformed_rating_is_zero() {
    assert_eq!(parse_rating(""), 0);
    assert_eq!(parse_rating("abc"), 0);
    assert_eq!(parse_rating("-1"), 0);
    assert_eq!(parse_rating(".5"), 0);
    assert_eq!(parse_rating("5."), 0);
    assert_eq!(parse_rating("4.5.6"), 0);
    assert_eq!(parse_rating("4,5"), 0);
    assert_eq!(parse_rating(" 4"), 0);
    assert_eq!(parse_rating("4 "), 0);
}

#[test]
fn rating_with_too_many_integer_digits_is_zero() {
    assert_eq!(parse_rating("1234567890"), 0);
    // nine digits still parse
    assert_eq!(parse_rating("123456789"), 12345678900);
}

#[test]
fn coordinate_positive() {
    assert_eq!(parse_coordinate("48.85837"), Some(48_858_370));
    assert_eq!(parse_coordinate("0"), Some(0));
    assert_eq!(parse_coordinate("180"), Some(180_000_000));
}

#[test]
fn coordinate_negative() {
    assert_eq!(parse_coordinate("-33.85837"), Some(-33_858_370));
    assert_eq!(parse_coordinate("-0.000001"), Some(-1));
}

#[test]
fn coordinate_extra_precision_truncates() {
    assert_eq!(parse_coordinate("1.23456789"), Some(1_234_567));
}

#[test]
fn coordinate_malformed() {
    assert_eq!(parse_coordinate(""), None);
    assert_eq!(parse_coordinate("-"), None);
    assert_eq!(parse_coordinate("--1"), None);
    assert_eq!(parse_coordinate("1.2.3"), None);
    assert_eq!(parse_coordinate("12a"), None);
    assert_eq!(parse_coordinate("+1"), None);
    assert_eq!(parse_coordinate("1e3"), None);
}

#[test]
fn signed_scale_three() {
    assert_eq!(parse_signed("0.2", 3), Some(200));
    assert_eq!(parse_signed("5.0", 3), Some(5000));
    assert_eq!(parse_signed("-2.5", 3), Some(-2500));
}

#[test]
fn integer_plain() {
    assert_eq!(parse_integer("0"), Some(0));
    assert_eq!(parse_integer("15"), Some(15));
    assert_eq!(parse_integer("999999999"), Some(999_999_999));
}

#[test]
fn integer_rejects_signs_dots_and_width() {
    assert_eq!(parse_integer(""), None);
    assert_eq!(parse_integer("3.5"), None);
    assert_eq!(parse_integer("-3"), None);
    assert_eq!(parse_integer("1234567890"), None);
    assert_eq!(parse_integer("12 "), None);
}

#[test]
fn formatting_trims_trailing_zeros() {
    assert_eq!(format_scaled(10_000, 3), "10");
    assert_eq!(format_scaled(10_500, 3), "10.5");
    assert_eq!(format_scaled(10_502, 3), "10.502");
    assert_eq!(format_scaled(0, 3), "0");
    assert_eq!(format_scaled(7, 0), "7");
    assert_eq!(format_scaled(450, 2), "4.5");
    assert_eq!(format_scaled(5, 2), "0.05");
}

#[test]
fn formatting_coordinates() {
    assert_eq!(format_coordinate(-33_858_370), "-33.85837");
    assert_eq!(format_coordinate(0), "0");
    assert_eq!(format_coordinate(180_000_000), "180");
    assert_eq!(format_coordinate(-1), "-0.000001");
}

#[test]
fn formatting_then_parsing_returns_the_value() {
    for v in [0u64, 1, 9, 10, 99, 100, 12_345, 10_000, 999_999, 1_000_000] {
        assert_eq!(parse_scaled(&format_scaled(v, 3), 3), Some(v));
    }
    for v in [-180_000_000i64, -1, 0, 1, 48_858_370, 180_000_000] {
        assert_eq!(parse_coordinate(&format_coordinate(v)), Some(v));
    }
}

#[test]
fn non_ascii_text_is_not_a_number() {
    assert_eq!(parse_rating("４.５"), 0);
    assert_eq!(parse_coordinate("١٢"), None);
}
