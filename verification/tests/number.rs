use fnlt::numeric::Numeric;
use fnlt::parser::parse_number;

fn n(s: &str) -> Numeric {
    Numeric::new(s).unwrap()
}

#[test]
fn test_parse_integer() {
    assert_eq!(parse_number("42"), Some(("", n("42"))));
    assert_eq!(parse_number("0"), Some(("", n("0"))));
    assert_eq!(parse_number("123"), Some(("", n("123"))));
}

#[test]
fn test_parse_positive_integer() {
    assert_eq!(parse_number("+0"), Some(("", n("0"))));
    assert_eq!(parse_number("+7"), Some(("", n("7"))));
    assert_eq!(parse_number("+123"), Some(("", n("123"))));
}

#[test]
fn test_parse_negative_integer() {
    assert_eq!(parse_number("-7"), Some(("", n("-7"))));
    assert_eq!(parse_number("-123"), Some(("", n("-123"))));
}

#[test]
fn test_parse_decimal() {
    assert_eq!(parse_number("3.14"), Some(("", n("3.14"))));
    assert_eq!(parse_number("0.5"), Some(("", n("0.5"))));
    assert_eq!(parse_number("42.0"), Some(("", n("42.0"))));
}

#[test]
fn test_parse_decimal_with_zero_fractional_digits() {
    assert_eq!(parse_number("42."), Some(("", n("42"))));
    assert_eq!(parse_number("+3."), Some(("", n("3"))));
    assert_eq!(parse_number("-7."), Some(("", n("-7"))));
}

#[test]
fn test_parse_positive_decimal() {
    assert_eq!(parse_number("+3.14"), Some(("", n("3.14"))));
    assert_eq!(parse_number("+0.5"), Some(("", n("0.5"))));
}

#[test]
fn test_parse_negative_decimal() {
    assert_eq!(parse_number("-3.14"), Some(("", n("-3.14"))));
    assert_eq!(parse_number("-0.5"), Some(("", n("-0.5"))));
}

#[test]
fn test_parse_number_with_remainder() {
    assert_eq!(parse_number("42 "), Some((" ", n("42"))));
    assert_eq!(parse_number("3.14,"), Some((",", n("3.14"))));
    assert_eq!(parse_number("+42 "), Some((" ", n("42"))));
    assert_eq!(parse_number("+3.14,"), Some((",", n("3.14"))));
}
