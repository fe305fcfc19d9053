use fnlt::ast::Literal;
use fnlt::numeric::Numeric;
use fnlt::parser::parse_literal;

fn n(s: &str) -> Numeric {
    Numeric::new(s).unwrap()
}

#[test]
fn test_parse_number_literal() {
    assert_eq!(parse_literal("42"), Some(("", Literal::Number(n("42")))));
    assert_eq!(parse_literal("3.14"), Some(("", Literal::Number(n("3.14")))));
}

#[test]
fn test_parse_string_literal() {
    assert_eq!(
        parse_literal(r#""hello""#),
        Some(("", Literal::String("hello".into())))
    );
}

#[test]
fn test_parse_boolean_literal() {
    assert_eq!(parse_literal("true"), Some(("", Literal::Boolean(true))));
    assert_eq!(parse_literal("false"), Some(("", Literal::Boolean(false))));
}

#[test]
fn test_parse_symbol_literal() {
    assert_eq!(
        parse_literal(":foo"),
        Some(("", Literal::Symbol("foo".into())))
    );
    assert_eq!(
        parse_literal(r#":"hello world""#),
        Some(("", Literal::Symbol("hello world".into())))
    );
}

#[test]
fn test_parse_literal_with_remainder() {
    assert_eq!(parse_literal("42 "), Some((" ", Literal::Number(n("42")))));
    assert_eq!(
        parse_literal(r#""hi" "#),
        Some((" ", Literal::String("hi".into())))
    );
    assert_eq!(parse_literal("true)"), Some((")", Literal::Boolean(true))));
}
