use fnlt::parser::parse_identifier;

#[test]
fn identifier_test_parse_identifier() {
    assert_eq!(parse_identifier("foo"), Some(("", "foo")));
    assert_eq!(parse_identifier("abc123"), Some(("", "abc123")));
    assert_eq!(parse_identifier("abc_123"), Some(("", "abc_123")));
    assert_eq!(parse_identifier("abc-123"), Some(("", "abc-123")));
    assert_eq!(parse_identifier("xyz"), Some(("", "xyz")));
    assert_eq!(parse_identifier("foo bar"), Some((" bar", "foo")));
}
