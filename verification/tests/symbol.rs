use fnlt::parser::parse_symbol;

#[test]
fn test_parse_symbol_identifier() {
    assert_eq!(parse_symbol(":foo"), Some(("", "foo".to_string())));
    assert_eq!(parse_symbol(":foo-bar"), Some(("", "foo-bar".to_string())));
    assert_eq!(parse_symbol(":foo_bar"), Some(("", "foo_bar".to_string())));
    assert_eq!(parse_symbol(":abc123"), Some(("", "abc123".to_string())));
}

#[test]
fn test_parse_symbol_string() {
    assert_eq!(parse_symbol(r#":"hello""#), Some(("", "hello".to_string())));
    assert_eq!(
        parse_symbol(r#":"hello world""#),
        Some(("", "hello world".to_string()))
    );
    // Empty string symbol: :""
    assert_eq!(parse_symbol(":\"\""), Some(("", String::new())));
}
