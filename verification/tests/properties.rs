//! Tests for the library's stated properties on concrete values, the edge
//! cases of the grammar, and the error paths.

use fnlt::Error;
use fnlt::ast::Expr;
use fnlt::ast::Identifier;
use fnlt::ast::Literal;
use fnlt::errors::RuntimeError;
use fnlt::numeric::Numeric;
use fnlt::operands::BinaryOp;
use fnlt::operands::UnaryOp;
use fnlt::parser::parse_binary_op;
use fnlt::parser::parse_expr;
use fnlt::parser::parse_literal;
use fnlt::parser::parse_number;
use fnlt::parser::parse_string;

fn n(s: &str) -> Numeric {
    Numeric::new(s).unwrap()
}

// --- identifiers: construction succeeds and round-trips; bad text fails ---
#[test]
fn identifier_round_trips() {
    let id = Identifier::try_from("Abc-123_z").unwrap();
    assert_eq!(id.as_str(), "Abc-123_z");
}

#[test]
fn identifier_rejects_empty_and_bad_chars() {
    assert!(matches!(Identifier::try_from(""), Err(Error::SyntaxError(_))));
    assert!(matches!(
        Identifier::try_from("a b"),
        Err(Error::SyntaxError(_))
    ));
    assert!(matches!(
        Identifier::try_from("a!b"),
        Err(Error::SyntaxError(_))
    ));
}

#[test]
fn identifier_accepts_unicode_alphanumerics() {
    // `char::is_alphanumeric` is a Unicode class, so letters beyond ASCII
    // are accepted too.
    let id = Identifier::try_from("café").unwrap();
    assert_eq!(id.as_str(), "café");
}

// --- double-character operator tokens never split ---
#[test]
fn double_char_tokens_win_over_prefixes() {
    assert_eq!(parse_binary_op("&&x"), Some(("x", BinaryOp::And)));
    assert_eq!(parse_binary_op("||x"), Some(("x", BinaryOp::Or)));
    assert_eq!(parse_binary_op("^^x"), Some(("x", BinaryOp::Xor)));
    assert_eq!(parse_binary_op("|>x"), Some(("x", BinaryOp::Pipe)));
    assert_eq!(
        parse_expr("a && b"),
        Some((
            "",
            Expr::binary_expr(Expr::ident("a"), BinaryOp::And, Expr::ident("b"))
        ))
    );
}

// --- strings: the two escapes, and nothing else ---
#[test]
fn string_decodes_escapes() {
    assert_eq!(
        parse_string("\"say \\\"hi\\\"\""),
        Some(("", "say \"hi\"".to_string()))
    );
    assert_eq!(parse_string("\"\""), Some(("", String::new())));
}

#[test]
fn string_rejects_unknown_escape() {
    assert_eq!(parse_string(r#""a\n""#), None);
    assert_eq!(parse_string(r#""\t""#), None);
    assert_eq!(parse_string("\"unterminated"), None);
    assert_eq!(parse_string("\"end with backslash\\"), None);
}

// --- trailing dot denotes the integer value ---
#[test]
fn trailing_dot_is_integer() {
    let forty_two = parse_number("42.").unwrap().1;
    assert_eq!(forty_two, n("42"));
    assert_eq!(Literal::Number(forty_two).to_text(), "42");
    let three = parse_number("+3.").unwrap().1;
    assert_eq!(three, n("3"));
    assert_eq!(Literal::Number(three).to_text(), "3");
}

#[test]
fn numbers_keep_exact_decimal_digits() {
    assert_eq!(Literal::Number(n("3.14")).to_text(), "3.14");
    assert_eq!(Literal::Number(n("-0.5")).to_text(), "-0.5");
    assert_eq!(Literal::Number(n("007")).to_text(), "7");
    assert_eq!(Literal::Number(n("2.500")).to_text(), "2.5");
    assert_eq!(Literal::Number(n("-0.0")).to_text(), "0");
}

// --- literal round trips through the textual form ---
#[test]
fn literal_round_trips() {
    let samples = vec![
        Literal::boolean(true),
        Literal::boolean(false),
        Literal::string("say \"hi\""),
        Literal::string(""),
        Literal::string("path\\to\\file"),
        Literal::symbol("foo"),
        Literal::symbol("hello world"),
        Literal::symbol(""),
        Literal::Number(n("42")),
        Literal::Number(n("-3.14")),
        Literal::from(-7),
    ];
    for l in samples {
        let text = l.to_text();
        assert_eq!(parse_literal(&text), Some(("", l)));
    }
}

// --- numbers built programmatically agree with parsed ones ---
#[test]
fn from_i64_matches_parsed_text() {
    assert_eq!(Numeric::from_i64(42), n("42"));
    assert_eq!(Numeric::from_i64(-7), n("-7"));
    assert_eq!(Numeric::from_i64(0), n("0"));
    assert_eq!(
        Numeric::from_i64(i64::MIN),
        n("-9223372036854775808")
    );
    assert_eq!(Numeric::from_i64(i64::MAX), n("9223372036854775807"));
}

#[test]
fn numeric_new_rejects_bad_text() {
    assert!(matches!(Numeric::new("abc"), Err(Error::SyntaxError(_))));
    assert!(matches!(Numeric::new(""), Err(Error::SyntaxError(_))));
    assert!(matches!(Numeric::new("1.2.3"), Err(Error::SyntaxError(_))));
    assert!(matches!(Numeric::new("42 "), Err(Error::SyntaxError(_))));
    assert!(matches!(Numeric::new(".5"), Err(Error::SyntaxError(_))));
}

// --- whitespace and nesting edges ---
#[test]
fn whitespace_is_trimmed_around_expressions() {
    assert_eq!(
        parse_expr("  1 +\t2\n"),
        Some((
            "",
            Expr::binary_expr(
                Expr::literal_number(n("1")),
                BinaryOp::Add,
                Expr::literal_number(n("2"))
            )
        ))
    );
}

#[test]
fn unary_operators_stack() {
    assert_eq!(
        parse_expr("--1"),
        Some((
            "",
            Expr::unary_expr(
                UnaryOp::Minus,
                Expr::unary_expr(UnaryOp::Minus, Expr::literal_number(n("1")))
            )
        ))
    );
}

#[test]
fn nested_parentheses() {
    assert_eq!(
        parse_expr("((1))"),
        Some((
            "",
            Expr::parenthesized(Expr::parenthesized(Expr::literal_number(n("1"))))
        ))
    );
}

#[test]
fn call_allows_space_before_parenthesis() {
    assert_eq!(
        parse_expr("foo ( 1 , 2 )"),
        Some((
            "",
            Expr::FunctionCall(
                Identifier::try_from("foo").unwrap(),
                vec![Expr::literal_number(n("1")), Expr::literal_number(n("2"))]
            )
        ))
    );
}

#[test]
fn empty_input_fails() {
    assert_eq!(parse_expr(""), None);
    assert_eq!(parse_expr("   "), None);
}

#[test]
fn remainder_is_reported_not_rejected() {
    assert_eq!(
        parse_expr("1 + 2 junk"),
        Some((
            "junk",
            Expr::binary_expr(
                Expr::literal_number(n("1")),
                BinaryOp::Add,
                Expr::literal_number(n("2"))
            )
        ))
    );
}

// --- the documented pipe restriction (grammar oddity, preserved as-is) ---
// The parenthesized and call-argument sub-grammars bottom out at the
// logical-or level, so a pipe can appear only at the outermost expression.
// This mirrors the grammar exactly; it is documented behavior, not assumed
// to be desirable.
#[test]
fn pipe_is_rejected_inside_parentheses() {
    assert_eq!(parse_expr("(a |> b)"), None);
}

#[test]
fn pipe_in_call_argument_stops_the_call() {
    // The call branch fails at the pipe, so the primary falls back to the
    // bare identifier and the call text is left as the remainder.
    assert_eq!(
        parse_expr("f(a |> b)"),
        Some(("(a |> b)", Expr::ident("f")))
    );
}

// --- the inverted precedence ladder ---
#[test]
fn logical_binds_looser_than_bitwise_and_arithmetic() {
    // a && b | c + d parses as a && (b | (c + d))
    assert_eq!(
        parse_expr("a && b | c + d"),
        Some((
            "",
            Expr::binary_expr(
                Expr::ident("a"),
                BinaryOp::And,
                Expr::binary_expr(
                    Expr::ident("b"),
                    BinaryOp::BitOr,
                    Expr::binary_expr(Expr::ident("c"), BinaryOp::Add, Expr::ident("d"))
                )
            )
        ))
    );
}

#[test]
fn pipe_binds_loosest_of_all() {
    // a + b |> f parses as (a + b) |> f
    assert_eq!(
        parse_expr("a + b |> f"),
        Some((
            "",
            Expr::binary_expr(
                Expr::binary_expr(Expr::ident("a"), BinaryOp::Add, Expr::ident("b")),
                BinaryOp::Pipe,
                Expr::ident("f")
            )
        ))
    );
}

#[test]
fn same_level_operators_fold_left() {
    assert_eq!(
        parse_expr("1 - 2 + 3"),
        Some((
            "",
            Expr::binary_expr(
                Expr::binary_expr(
                    Expr::literal_number(n("1")),
                    BinaryOp::Sub,
                    Expr::literal_number(n("2"))
                ),
                BinaryOp::Add,
                Expr::literal_number(n("3"))
            )
        ))
    );
}

// --- literals win over identifiers and calls in the primary ---
#[test]
fn boolean_prefix_wins_in_primary() {
    // The literal alternative is tried first, so `true` matches as a
    // boolean even when more identifier characters follow.
    assert_eq!(
        parse_expr("truex"),
        Some(("x", Expr::literal_boolean(true)))
    );
}

// --- the reserved error taxonomy ---
#[test]
fn runtime_error_taxonomy_is_declared() {
    assert_eq!(RuntimeError::InvalidOperandType, RuntimeError::InvalidOperandType);
    assert_ne!(
        RuntimeError::DivisionByZero,
        RuntimeError::CannotCompare("a".to_string(), "b".to_string())
    );
    let e = Error::RuntimeError(RuntimeError::DivisionByZero);
    assert!(matches!(e, Error::RuntimeError(RuntimeError::DivisionByZero)));
    assert!(matches!(Error::F64ConversionError, Error::F64ConversionError));
}
