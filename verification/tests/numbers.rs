use gpx_extensions::number::is_valid_number;
use gpx_extensions::parser::{consume, ParseError};
use gpx_extensions::reader::Context;
use gpx_extensions::record::Waypoint;

fn consume_power(value: &str) -> (Result<(), ParseError>, Option<String>) {
    let doc = format!("<extensions><power>{}</power></extensions>", value);
    let mut context = Context::new(doc);
    let mut waypoint = Waypoint::new();
    let result = consume(&mut context, &mut waypoint);
    (result, waypoint.power)
}

#[test]
fn accepts_plain_integers_and_signs() {
    assert!(is_valid_number("0"));
    assert!(is_valid_number("250"));
    assert!(is_valid_number("+7"));
    assert!(is_valid_number("-7"));
}

#[test]
fn accepts_decimal_points() {
    assert!(is_valid_number("25.5"));
    assert!(is_valid_number("1."));
    assert!(is_valid_number(".5"));
    assert!(is_valid_number("-0.25"));
}

#[test]
fn accepts_exponents() {
    assert!(is_valid_number("2e3"));
    assert!(is_valid_number("2E3"));
    assert!(is_valid_number("+2.5e-3"));
    assert!(is_valid_number("1.E+2"));
}

#[test]
fn rejects_non_numbers() {
    assert!(!is_valid_number(""));
    assert!(!is_valid_number("."));
    assert!(!is_valid_number("+"));
    assert!(!is_valid_number("abc"));
    assert!(!is_valid_number("1e"));
    assert!(!is_valid_number("2e+"));
    assert!(!is_valid_number("1.2.3"));
    assert!(!is_valid_number(" 250"));
    assert!(!is_valid_number("250 "));
    assert!(!is_valid_number("--1"));
    assert!(!is_valid_number("1f2"));
}

#[test]
fn numeric_grammar_decides_field_extraction() {
    let (result, power) = consume_power("+2.5e-3");
    assert!(result.is_ok());
    assert_eq!(power, Some("+2.5e-3".to_string()));

    let (result, power) = consume_power("2e");
    assert!(matches!(result, Err(ParseError::FieldParseError(_))));
    assert_eq!(power, None);
}
