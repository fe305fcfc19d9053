use fnlt::parser::parse_boolean;

#[test]
fn test_parse_true() {
    assert_eq!(parse_boolean("true"), Some(("", true)));
}

#[test]
fn test_parse_false() {
    assert_eq!(parse_boolean("false"), Some(("", false)));
}

#[test]
fn test_parse_boolean_with_remainder() {
    assert_eq!(parse_boolean("true "), Some((" ", true)));
    assert_eq!(parse_boolean("false)"), Some((")", false)));
}
