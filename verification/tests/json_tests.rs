use gpuix::json::{read_flag, read_number, read_text};
use serde_json::Value;

fn parse(text: &str) -> Value {
    serde_json::from_str(text).expect("valid JSON")
}

#[test]
fn read_text_takes_strings_only() {
    assert_eq!(read_text(&Value::String("abc".to_string())), "abc");
    assert_eq!(read_text(&Value::String(String::new())), "");
    assert_eq!(read_text(&Value::Null), "");
    assert_eq!(read_text(&Value::Bool(true)), "");
    assert_eq!(read_text(&parse("12")), "");
    assert_eq!(read_text(&parse("[\"a\"]")), "");
}

#[test]
fn read_flag_takes_booleans_only() {
    assert!(read_flag(&Value::Bool(true), false));
    assert!(!read_flag(&Value::Bool(false), true));
    assert!(read_flag(&Value::Null, true));
    assert!(!read_flag(&Value::Null, false));
    assert!(read_flag(&Value::String("false".to_string()), true));
    assert!(!read_flag(&parse("1"), false));
}

#[test]
fn read_number_reads_plain_decimals() {
    assert_eq!(read_number(&parse("0")), Some(0));
    assert_eq!(read_number(&parse("12")), Some(12_000_000));
    assert_eq!(read_number(&parse("-3")), Some(-3_000_000));
    assert_eq!(read_number(&parse("12.5")), Some(12_500_000));
    assert_eq!(read_number(&parse("0.0001")), Some(100));
    assert_eq!(read_number(&parse("-0.25")), Some(-250_000));
}

#[test]
fn read_number_takes_numbers_only() {
    assert_eq!(read_number(&Value::Null), None);
    assert_eq!(read_number(&Value::String("12".to_string())), None);
    assert_eq!(read_number(&Value::Bool(true)), None);
    assert_eq!(read_number(&parse("{\"x\": 1}")), None);
}

#[test]
fn read_number_reads_exponents() {
    assert_eq!(read_number(&parse("1e300")), Some(1_000_000_000_000_000_000));
    assert_eq!(read_number(&parse("1e-7")), Some(0));
    assert_eq!(read_number(&parse("0.000001")), Some(1));
    assert_eq!(read_number(&parse("2.5e-5")), Some(25));
    assert_eq!(read_number(&parse("-1e21")), Some(-1_000_000_000_000_000_000));
    assert_eq!(read_number(&parse("18446744073709551615")), Some(1_000_000_000_000_000_000));
}
