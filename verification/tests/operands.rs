use fnlt::operands::BinaryOp;
use fnlt::operands::UnaryOp;
use fnlt::parser::parse_binary_op;
use fnlt::parser::parse_unary_op;

#[test]
fn test_parse_unary_op() {
    assert_eq!(parse_unary_op("!"), Some(("", UnaryOp::Not)));
    assert_eq!(parse_unary_op("+"), Some(("", UnaryOp::Plus)));
    assert_eq!(parse_unary_op("-"), Some(("", UnaryOp::Minus)));
}

#[test]
fn test_parse_unary_op_with_remainder() {
    assert_eq!(parse_unary_op("!x"), Some(("x", UnaryOp::Not)));
    assert_eq!(parse_unary_op("+ 1"), Some((" 1", UnaryOp::Plus)));
}

#[test]
fn test_parse_binary_op_single_char() {
    assert_eq!(parse_binary_op("+"), Some(("", BinaryOp::Add)));
    assert_eq!(parse_binary_op("-"), Some(("", BinaryOp::Sub)));
    assert_eq!(parse_binary_op("*"), Some(("", BinaryOp::Mul)));
    assert_eq!(parse_binary_op("/"), Some(("", BinaryOp::Div)));
    assert_eq!(parse_binary_op("&"), Some(("", BinaryOp::BitAnd)));
    assert_eq!(parse_binary_op("|"), Some(("", BinaryOp::BitOr)));
    assert_eq!(parse_binary_op("^"), Some(("", BinaryOp::BitXor)));
}

#[test]
fn test_parse_binary_op_double_char() {
    assert_eq!(parse_binary_op("&&"), Some(("", BinaryOp::And)));
    assert_eq!(parse_binary_op("||"), Some(("", BinaryOp::Or)));
    assert_eq!(parse_binary_op("^^"), Some(("", BinaryOp::Xor)));
    assert_eq!(parse_binary_op("|>"), Some(("", BinaryOp::Pipe)));
}

#[test]
fn test_parse_binary_op_double_char_not_consumed_as_single() {
    // `&&` should parse as And, not as two BitAnd
    assert_eq!(parse_binary_op("&&"), Some(("", BinaryOp::And)));
    assert_eq!(parse_binary_op("||"), Some(("", BinaryOp::Or)));
    assert_eq!(parse_binary_op("^^"), Some(("", BinaryOp::Xor)));
}

#[test]
fn test_parse_binary_op_with_remainder() {
    assert_eq!(parse_binary_op("+ 1"), Some((" 1", BinaryOp::Add)));
    assert_eq!(parse_binary_op("&& true"), Some((" true", BinaryOp::And)));
}
