use gpuix::number::{parse_decimal, parse_unsigned, MICRO_CAP};
use gpuix::style::{parse_dimension, DimensionValue};

fn decimal(text: &str) -> Option<i64> {
    parse_decimal(text.as_bytes(), 0, text.len())
}

#[test]
fn whole_numbers_are_scaled_to_millionths() {
    assert_eq!(decimal("0"), Some(0));
    assert_eq!(decimal("1"), Some(1_000_000));
    assert_eq!(decimal("800"), Some(800_000_000));
    assert_eq!(decimal("007"), Some(7_000_000));
}

#[test]
fn fractions_keep_six_digits() {
    assert_eq!(decimal("0.5"), Some(500_000));
    assert_eq!(decimal("12.25"), Some(12_250_000));
    assert_eq!(decimal("1.000001"), Some(1_000_001));
    assert_eq!(decimal("1.0000019"), Some(1_000_001));
    assert_eq!(decimal("0.123456789"), Some(123_456));
    assert_eq!(decimal(".5"), Some(500_000));
    assert_eq!(decimal("5."), Some(5_000_000));
}

#[test]
fn signs_are_read() {
    assert_eq!(decimal("-1.5"), Some(-1_500_000));
    assert_eq!(decimal("+2"), Some(2_000_000));
    assert_eq!(decimal("-0"), Some(0));
}

#[test]
fn large_numbers_are_held_at_the_cap() {
    assert_eq!(decimal("1000000000000"), Some(MICRO_CAP));
    assert_eq!(decimal("999999999999.999999"), Some(999_999_999_999_999_999));
    assert_eq!(decimal("99999999999999999999999999"), Some(MICRO_CAP));
    assert_eq!(decimal("-99999999999999999999999999"), Some(-MICRO_CAP));
}

#[test]
fn exponents_move_the_decimal_point() {
    assert_eq!(decimal("1e3"), Some(1_000_000_000));
    assert_eq!(decimal("1E+2"), Some(100_000_000));
    assert_eq!(decimal("1.5e2"), Some(150_000_000));
    assert_eq!(decimal("25e-1"), Some(2_500_000));
    assert_eq!(decimal("1e-6"), Some(1));
    assert_eq!(decimal("9.99e-6"), Some(9));
    assert_eq!(decimal("1e-7"), Some(0));
    assert_eq!(decimal("123456789e-3"), Some(123_456_789_000));
    assert_eq!(decimal("-2.5e1"), Some(-25_000_000));
    assert_eq!(decimal("0.00012e4"), Some(1_200_000));
    assert_eq!(decimal("1e0"), Some(1_000_000));
    assert_eq!(decimal("1e-0"), Some(1_000_000));
    assert_eq!(decimal(".5e1"), Some(5_000_000));
}

#[test]
fn exponents_far_out_give_zero_or_the_cap() {
    assert_eq!(decimal("1e12"), Some(MICRO_CAP));
    assert_eq!(decimal("1e11"), Some(100_000_000_000_000_000));
    assert_eq!(decimal("1e300"), Some(MICRO_CAP));
    assert_eq!(decimal("1e99999999999999999999999999999999999999999999"), Some(MICRO_CAP));
    assert_eq!(decimal("0e99999999999999999999999999999999999999999999"), Some(0));
    assert_eq!(decimal("0.000e5"), Some(0));
    assert_eq!(decimal("1e-99999999999999999999999999999999999999999999"), Some(0));
    assert_eq!(decimal("-1e300"), Some(-MICRO_CAP));
    assert_eq!(decimal("0.0000000000000000000000000001e40"), Some(MICRO_CAP));
    assert_eq!(decimal("0.0000000000000000000000000001e30"), Some(100_000_000));
    assert_eq!(decimal("100000000000000000000000000000e-27"), Some(100_000_000));
}

#[test]
fn other_text_is_no_number() {
    assert_eq!(decimal(""), None);
    assert_eq!(decimal("."), None);
    assert_eq!(decimal("-"), None);
    assert_eq!(decimal("1e"), None);
    assert_eq!(decimal("e5"), None);
    assert_eq!(decimal("1e+"), None);
    assert_eq!(decimal("1e5x"), None);
    assert_eq!(decimal("1e 5"), None);
    assert_eq!(decimal("1e5.5"), None);
    assert_eq!(decimal(".e5"), None);
    assert_eq!(decimal("1.2.3"), None);
    assert_eq!(decimal("12px"), None);
    assert_eq!(decimal(" 1"), None);
    assert_eq!(decimal("--1"), None);
}

#[test]
fn a_range_of_the_bytes_is_read() {
    let bytes = b"ab12.5cd";
    assert_eq!(parse_unsigned(bytes, 2, 6), Some(12_500_000));
    assert_eq!(parse_unsigned(bytes, 2, 7), None);
    assert_eq!(parse_unsigned(bytes, 2, 2), None);
}

#[test]
fn dimension_auto() {
    assert_eq!(parse_dimension("auto"), Some(DimensionValue::Auto));
}

#[test]
fn dimension_percentage_is_a_fraction() {
    assert_eq!(parse_dimension("100%"), Some(DimensionValue::Percentage(1_000_000)));
    assert_eq!(parse_dimension("50%"), Some(DimensionValue::Percentage(500_000)));
    assert_eq!(parse_dimension("33.3%"), Some(DimensionValue::Percentage(333_000)));
    assert_eq!(parse_dimension("-10%"), Some(DimensionValue::Percentage(-100_000)));
}

#[test]
fn dimension_number_is_pixels() {
    assert_eq!(parse_dimension("12.5"), Some(DimensionValue::Pixels(12_500_000)));
    assert_eq!(parse_dimension("0"), Some(DimensionValue::Pixels(0)));
}

#[test]
fn dimension_of_other_text_is_none() {
    assert_eq!(parse_dimension(""), None);
    assert_eq!(parse_dimension("%"), None);
    assert_eq!(parse_dimension("wide"), None);
    assert_eq!(parse_dimension("Auto"), None);
    assert_eq!(parse_dimension("10px"), None);
}

#[test]
fn dimension_default_is_auto() {
    assert_eq!(DimensionValue::default(), DimensionValue::Auto);
}
