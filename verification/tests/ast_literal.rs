use fnlt::ast::Literal;
use fnlt::numeric::Numeric;

#[test]
fn test_literal_from_i64() {
    assert_eq!(
        Literal::from(42),
        Literal::Number(Numeric::new("42").unwrap())
    );
}

#[test]
fn test_literal_from_negative_i64() {
    assert_eq!(
        Literal::from(-7),
        Literal::Number(Numeric::new("-7").unwrap())
    );
    assert_eq!(Literal::from(0), Literal::Number(Numeric::new("0").unwrap()));
    assert_eq!(
        Literal::from(9007199254740993),
        Literal::Number(Numeric::new("9007199254740993").unwrap())
    );
}

#[test]
fn test_literal_from_bool_and_string() {
    assert_eq!(Literal::from(true), Literal::Boolean(true));
    assert_eq!(
        Literal::from("hi".to_string()),
        Literal::String("hi".to_string())
    );
}
