use fnlt::ast::Expr;
use fnlt::ast::Identifier;
use fnlt::numeric::Numeric;
use fnlt::operands::BinaryOp;
use fnlt::operands::UnaryOp;
use fnlt::parser::parse_expr;

fn n(s: &str) -> Numeric {
    Numeric::new(s).unwrap()
}

fn call(name: &str, args: Vec<Expr>) -> Expr {
    Expr::function_call(Identifier::try_from(name).expect("invalid identifier"), args)
}

#[test]
fn test_parse_number() {
    assert_eq!(parse_expr("42"), Some(("", Expr::literal_number(n("42")))));
    assert_eq!(parse_expr("3.14"), Some(("", Expr::literal_number(n("3.14")))));
}

#[test]
fn expr_test_parse_identifier() {
    assert_eq!(parse_expr("foo"), Some(("", Expr::ident("foo"))));
}

#[test]
fn test_parse_string() {
    assert_eq!(parse_expr(r#""hello""#), Some(("", Expr::literal_string("hello"))));
}

#[test]
fn test_parse_symbol() {
    assert_eq!(parse_expr(":foo"), Some(("", Expr::literal_symbol("foo"))));
}

#[test]
fn test_parse_unary() {
    assert_eq!(
        parse_expr("!x"),
        Some(("", Expr::unary_expr(UnaryOp::Not, Expr::ident("x"))))
    );
    assert_eq!(
        parse_expr("-42"),
        Some((
            "",
            Expr::unary_expr(UnaryOp::Minus, Expr::literal_number(n("42")))
        ))
    );
}

#[test]
fn test_parse_binary() {
    assert_eq!(
        parse_expr("1 + 2"),
        Some((
            "",
            Expr::binary_expr(
                Expr::literal_number(n("1")),
                BinaryOp::Add,
                Expr::literal_number(n("2"))
            )
        ))
    );
    assert_eq!(
        parse_expr("10 * 2"),
        Some((
            "",
            Expr::binary_expr(
                Expr::literal_number(n("10")),
                BinaryOp::Mul,
                Expr::literal_number(n("2"))
            )
        ))
    );
}

#[test]
fn test_parse_precedence() {
    // * has higher precedence than +
    assert_eq!(
        parse_expr("1 + 2 * 3"),
        Some((
            "",
            Expr::binary_expr(
                Expr::literal_number(n("1")),
                BinaryOp::Add,
                Expr::binary_expr(
                    Expr::literal_number(n("2")),
                    BinaryOp::Mul,
                    Expr::literal_number(n("3"))
                )
            )
        ))
    );
}

#[test]
fn test_parse_function_call() {
    assert_eq!(
        parse_expr("foo()"),
        Some((
            "",
            Expr::FunctionCall(
                Identifier::try_from("foo").expect("invalid identifier"),
                vec![]
            )
        ))
    );
    assert_eq!(
        parse_expr("bar(1)"),
        Some((
            "",
            Expr::FunctionCall(
                Identifier::try_from("bar").expect("invalid identifier"),
                vec![Expr::literal_number(n("1"))]
            )
        ))
    );
    assert_eq!(
        parse_expr("add(1, 2)"),
        Some((
            "",
            Expr::FunctionCall(
                Identifier::try_from("add").expect("invalid identifier"),
                vec![Expr::literal_number(n("1")), Expr::literal_number(n("2"))]
            )
        ))
    );
}

#[test]
fn test_parse_pipe() {
    assert_eq!(
        parse_expr("1 |> add(2)"),
        Some((
            "",
            Expr::binary_expr(
                Expr::literal_number(n("1")),
                BinaryOp::Pipe,
                call("add", vec![Expr::literal_number(n("2"))])
            )
        ))
    );
    assert_eq!(
        parse_expr("a |> b |> c"),
        Some((
            "",
            Expr::binary_expr(
                Expr::binary_expr(Expr::ident("a"), BinaryOp::Pipe, Expr::ident("b")),
                BinaryOp::Pipe,
                Expr::ident("c")
            )
        ))
    );
}

#[test]
fn test_parse_pipe_with_function_calls() {
    assert_eq!(
        parse_expr(r#"READ("input") |> WRITE("output")"#),
        Some((
            "",
            Expr::binary_expr(
                call("READ", vec![Expr::literal_string("input")]),
                BinaryOp::Pipe,
                call("WRITE", vec![Expr::literal_string("output")])
            )
        ))
    );
}

#[test]
fn test_parse_pipe_with_function_calls_and_symbols() {
    assert_eq!(
        parse_expr(r#"READ("input") |> SELECT(:id, :email, :name) |> WRITE("output")"#),
        Some((
            "",
            Expr::binary_expr(
                Expr::binary_expr(
                    call("READ", vec![Expr::literal_string("input")]),
                    BinaryOp::Pipe,
                    call(
                        "SELECT",
                        vec![
                            Expr::literal_symbol("id"),
                            Expr::literal_symbol("email"),
                            Expr::literal_symbol("name"),
                        ]
                    ),
                ),
                BinaryOp::Pipe,
                call("WRITE", vec![Expr::literal_string("output")])
            )
        ))
    );
}

#[test]
fn test_parse_parenthesized() {
    assert_eq!(
        parse_expr("(1 + 2) * 3"),
        Some((
            "",
            Expr::binary_expr(
                Expr::parenthesized(Expr::binary_expr(
                    Expr::literal_number(n("1")),
                    BinaryOp::Add,
                    Expr::literal_number(n("2"))
                )),
                BinaryOp::Mul,
                Expr::literal_number(n("3"))
            )
        ))
    );
}
