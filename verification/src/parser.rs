//! The executable parser, verified against the grammar.
//!
//! The internal functions work over a vector of characters and a position;
//! each one returns exactly what the corresponding grammar function says,
//! or `None` without consuming input. The public functions at the bottom
//! take a string slice and hand back the value together with the unconsumed
//! remainder, mirroring the internal position with a sub-slice.

use vstd::prelude::*;
use vstd::string::StrSliceExecFns;
use vstd::string::StringExecFns;
pub use crate::ast::Expr;
pub use crate::ast::Literal;
pub use crate::operands::BinaryOp;
pub use crate::operands::UnaryOp;
use crate::ast::Identifier;
use crate::ast::exprs_view;
use crate::chars::chars_vec;
use crate::chars::string_from_chars;
use crate::errors::Error;
use crate::ast::lemma_exprs_view_push;
use crate::chars::scan_digits_end_exec;
use crate::chars::scan_ident_end_exec;
use crate::chars::skip_ws_exec;
use crate::chars::sub_vec;
use crate::grammar::spec_parse_boolean;
use crate::grammar::spec_parse_binary_op;
use crate::grammar::spec_parse_literal;
use crate::grammar::spec_parse_number;
use crate::grammar::spec_parse_string;
use crate::grammar::spec_parse_symbol;
use crate::grammar::spec_parse_unary_op;
use crate::grammar::spec_string_body;
use crate::grammar::spec_parse_identifier;
use crate::grammar::op_in_level;
use crate::grammar::spec_parse_level;
use crate::grammar::spec_level_tail;
use crate::grammar::spec_parse_unary;
use crate::grammar::spec_parse_primary;
use crate::grammar::spec_parse_call;
use crate::grammar::spec_args_tail;
use crate::grammar::spec_parse_paren;
use crate::grammar::spec_parse_expr;
use crate::grammar::lemma_scan_digits_bounds;
use crate::grammar::lemma_string_body_bounds;
use crate::numeric::Numeric;
use crate::numeric::numeric_wf;

verus! {

pub(crate) fn parse_boolean_at(s: &Vec<char>, pos: usize) -> (r: Option<(bool, usize)>)
    requires
        pos <= s@.len(),
    ensures
        match r {
            Some((b, m)) => spec_parse_boolean(s@, pos as int) == Some((b, m as int)) && pos < m
                <= s@.len(),
            None => spec_parse_boolean(s@, pos as int) is None,
        },
{
    if s.len() - pos >= 4 && s[pos] == 't' && s[pos + 1] == 'r' && s[pos + 2] == 'u' && s[pos + 3]
        == 'e' {
        Some((true, pos + 4))
    } else if s.len() - pos >= 5 && s[pos] == 'f' && s[pos + 1] == 'a' && s[pos + 2] == 'l'
        && s[pos + 3] == 's' && s[pos + 4] == 'e' {
        Some((false, pos + 5))
    } else {
        None
    }
}

pub(crate) fn parse_number_at(s: &Vec<char>, pos: usize) -> (r: Option<(Numeric, usize)>)
    requires
        pos <= s@.len(),
    ensures
        match r {
            Some((n, m)) => spec_parse_number(s@, pos as int) == Some((n.view(), m as int)) && pos
                < m <= s@.len() && numeric_wf(n.view()),
            None => spec_parse_number(s@, pos as int) is None,
        },
{
    let negative = pos < s.len() && s[pos] == '-';
    let signed = pos < s.len() && (s[pos] == '-' || s[pos] == '+');
    let j = if signed {
        pos + 1
    } else {
        pos
    };
    let d = scan_digits_end_exec(s, j);
    proof {
        lemma_scan_digits_bounds(s@, j as int);
    }
    if d == j {
        None
    } else if d < s.len() && s[d] == '.' {
        let f = scan_digits_end_exec(s, d + 1);
        proof {
            lemma_scan_digits_bounds(s@, d + 1);
        }
        let intd = sub_vec(s, j, d);
        let fracd = sub_vec(s, d + 1, f);
        let n = Numeric::from_parts(negative, intd, fracd);
        Some((n, f))
    } else {
        let intd = sub_vec(s, j, d);
        let fracd: Vec<char> = Vec::new();
        proof {
            assert(fracd@ =~= Seq::<char>::empty());
        }
        let n = Numeric::from_parts(negative, intd, fracd);
        Some((n, d))
    }
}

pub(crate) fn parse_string_at(s: &Vec<char>, pos: usize) -> (r: Option<(Vec<char>, usize)>)
    requires
        pos <= s@.len(),
    ensures
        match r {
            Some((t, m)) => spec_parse_string(s@, pos as int) == Some((t@, m as int)) && pos < m
                <= s@.len(),
            None => spec_parse_string(s@, pos as int) is None,
        },
{
    if pos == s.len() {
        return None;
    }
    if s[pos] != '"' {
        return None;
    }
    let mut i: usize = pos + 1;
    let mut out: Vec<char> = Vec::new();
    proof {
        lemma_string_body_bounds(s@, pos + 1);
        if let Some((rest, j)) = spec_string_body(s@, pos + 1) {
            assert(out@ + rest =~= rest);
        }
    }
    loop
        invariant
            pos < s@.len(),
            s@[pos as int] == '"',
            pos + 1 <= i <= s@.len(),
            (match spec_string_body(s@, i as int) {
                Some((rest, j)) => spec_string_body(s@, pos + 1) == Some((out@ + rest, j)) && i
                    < j <= s@.len(),
                None => spec_string_body(s@, pos + 1) is None,
            }),
        decreases s@.len() - i,
    {
        if i == s.len() {
            return None;
        }
        let c = s[i];
        if c == '"' {
            proof {
                assert(spec_string_body(s@, i as int) == Some(
                    (Seq::<char>::empty(), i as int + 1),
                ));
                assert(out@ + Seq::<char>::empty() =~= out@);
            }
            return Some((out, i + 1));
        }
        if c == '\\' {
            if s.len() - i >= 2 && (s[i + 1] == '"' || s[i + 1] == '\\') {
                proof {
                    let out0 = out@;
                    lemma_string_body_bounds(s@, i + 2);
                    if let Some((rest, j)) = spec_string_body(s@, i + 2) {
                        assert(spec_string_body(s@, i as int) == Some(
                            (seq![s@[i + 1]] + rest, j),
                        ));
                        assert(out0 + (seq![s@[i + 1]] + rest) =~= (out0 + seq![s@[i + 1]])
                            + rest);
                        assert(out0.push(s@[i + 1]) =~= out0 + seq![s@[i + 1]]);
                    }
                }
                out.push(s[i + 1]);
                i = i + 2;
            } else {
                return None;
            }
        } else {
            proof {
                let out0 = out@;
                lemma_string_body_bounds(s@, i + 1);
                if let Some((rest, j)) = spec_string_body(s@, i + 1) {
                    assert(spec_string_body(s@, i as int) == Some((seq![s@[i as int]] + rest, j)));
                    assert(out0 + (seq![s@[i as int]] + rest) =~= (out0 + seq![s@[i as int]])
                        + rest);
                    assert(out0.push(s@[i as int]) =~= out0 + seq![s@[i as int]]);
                }
            }
            out.push(c);
            i = i + 1;
        }
    }
}

pub(crate) fn parse_symbol_at(s: &Vec<char>, pos: usize) -> (r: Option<(Vec<char>, usize)>)
    requires
        pos <= s@.len(),
    ensures
        match r {
            Some((t, m)) => spec_parse_symbol(s@, pos as int) == Some((t@, m as int)) && pos < m
                <= s@.len(),
            None => spec_parse_symbol(s@, pos as int) is None,
        },
{
    if pos == s.len() {
        return None;
    }
    if s[pos] != ':' {
        return None;
    }
    match parse_string_at(s, pos + 1) {
        Some((t, m)) => Some((t, m)),
        None => {
            let e = scan_ident_end_exec(s, pos + 1);
            if e > pos + 1 {
                Some((sub_vec(s, pos + 1, e), e))
            } else {
                None
            }
        },
    }
}

pub(crate) fn parse_literal_at(s: &Vec<char>, pos: usize) -> (r: Option<(Literal, usize)>)
    requires
        pos <= s@.len(),
    ensures
        match r {
            Some((l, m)) => spec_parse_literal(s@, pos as int) == Some((l.view(), m as int)) && pos
                < m <= s@.len(),
            None => spec_parse_literal(s@, pos as int) is None,
        },
{
    match parse_boolean_at(s, pos) {
        Some((b, m)) => Some((Literal::Boolean(b), m)),
        None => match parse_symbol_at(s, pos) {
            Some((t, m)) => Some((Literal::Symbol(crate::chars::string_from_chars(&t)), m)),
            None => match parse_string_at(s, pos) {
                Some((t, m)) => Some((Literal::String(crate::chars::string_from_chars(&t)), m)),
                None => match parse_number_at(s, pos) {
                    Some((n, m)) => Some((Literal::Number(n), m)),
                    None => None,
                },
            },
        },
    }
}

pub(crate) fn parse_unary_op_at(s: &Vec<char>, pos: usize) -> (r: Option<(UnaryOp, usize)>)
    requires
        pos <= s@.len(),
    ensures
        match r {
            Some((op, m)) => spec_parse_unary_op(s@, pos as int) == Some((op, m as int)) && pos < m
                <= s@.len(),
            None => spec_parse_unary_op(s@, pos as int) is None,
        },
{
    if pos < s.len() && s[pos] == '!' {
        Some((UnaryOp::Not, pos + 1))
    } else if pos < s.len() && s[pos] == '+' {
        Some((UnaryOp::Plus, pos + 1))
    } else if pos < s.len() && s[pos] == '-' {
        Some((UnaryOp::Minus, pos + 1))
    } else {
        None
    }
}

pub(crate) fn parse_binary_op_at(s: &Vec<char>, pos: usize) -> (r: Option<(BinaryOp, usize)>)
    requires
        pos <= s@.len(),
    ensures
        match r {
            Some((op, m)) => spec_parse_binary_op(s@, pos as int) == Some((op, m as int)) && pos
                < m <= s@.len(),
            None => spec_parse_binary_op(s@, pos as int) is None,
        },
{
    let two = s.len() - pos >= 2;
    if two && s[pos] == '|' && s[pos + 1] == '>' {
        Some((BinaryOp::Pipe, pos + 2))
    } else if two && s[pos] == '&' && s[pos + 1] == '&' {
        Some((BinaryOp::And, pos + 2))
    } else if two && s[pos] == '|' && s[pos + 1] == '|' {
        Some((BinaryOp::Or, pos + 2))
    } else if two && s[pos] == '^' && s[pos + 1] == '^' {
        Some((BinaryOp::Xor, pos + 2))
    } else if pos < s.len() && s[pos] == '&' {
        Some((BinaryOp::BitAnd, pos + 1))
    } else if pos < s.len() && s[pos] == '|' {
        Some((BinaryOp::BitOr, pos + 1))
    } else if pos < s.len() && s[pos] == '^' {
        Some((BinaryOp::BitXor, pos + 1))
    } else if pos < s.len() && s[pos] == '*' {
        Some((BinaryOp::Mul, pos + 1))
    } else if pos < s.len() && s[pos] == '+' {
        Some((BinaryOp::Add, pos + 1))
    } else if pos < s.len() && s[pos] == '/' {
        Some((BinaryOp::Div, pos + 1))
    } else if pos < s.len() && s[pos] == '-' {
        Some((BinaryOp::Sub, pos + 1))
    } else {
        None
    }
}

// ---------------------------------------------------------------------------
// The precedence-climbing engine
// ---------------------------------------------------------------------------
fn op_in_level_exec(op: BinaryOp, lev: u8) -> (r: bool)
    ensures
        r == op_in_level(op, lev as int),
{
    match op {
        BinaryOp::Pipe => lev == 0,
        BinaryOp::Or => lev == 1,
        BinaryOp::And => lev == 2,
        BinaryOp::Xor => lev == 3,
        BinaryOp::BitOr => lev == 4,
        BinaryOp::BitXor => lev == 5,
        BinaryOp::BitAnd => lev == 6,
        BinaryOp::Add => lev == 7,
        BinaryOp::Sub => lev == 7,
        BinaryOp::Mul => lev == 8,
        BinaryOp::Div => lev == 8,
    }
}

pub(crate) fn parse_level_at(s: &Vec<char>, pos: usize, lev: u8) -> (r: Option<(Expr, usize)>)
    requires
        pos <= s@.len(),
        lev <= 8,
    ensures
        match r {
            Some((e, m)) => spec_parse_level(s@, pos as int, lev as int) == Some(
                (e.view(), m as int),
            ) && pos < m <= s@.len(),
            None => spec_parse_level(s@, pos as int, lev as int) is None,
        },
    decreases s@.len() - pos, 12 - lev,
{
    let first = if lev == 8 {
        parse_unary_at(s, pos)
    } else {
        parse_level_at(s, pos, lev + 1)
    };
    match first {
        None => None,
        Some((e0, i1)) => {
            let folded = level_tail(s, lev, e0, i1);
            Some(folded)
        },
    }
}

fn level_tail(s: &Vec<char>, lev: u8, acc: Expr, i: usize) -> (r: (Expr, usize))
    requires
        lev <= 8,
        i <= s@.len(),
    ensures
        spec_level_tail(s@, lev as int, acc.view(), i as int) == (r.0.view(), r.1 as int),
        i <= r.1 <= s@.len(),
    decreases s@.len() - i, 0int,
{
    let j = skip_ws_exec(s, i);
    if j == s.len() {
        return (acc, i);
    }
    match parse_binary_op_at(s, j) {
        None => (acc, i),
        Some((op, j2)) => {
            if !op_in_level_exec(op, lev) {
                return (acc, i);
            }
            let k = skip_ws_exec(s, j2);
            let rhs = if lev == 8 {
                parse_unary_at(s, k)
            } else {
                parse_level_at(s, k, lev + 1)
            };
            match rhs {
                None => (acc, i),
                Some((e1, m)) => {
                    let acc2 = Expr::BinaryExpr(Box::new(acc), op, Box::new(e1));
                    level_tail(s, lev, acc2, m)
                },
            }
        },
    }
}

pub(crate) fn parse_unary_at(s: &Vec<char>, pos: usize) -> (r: Option<(Expr, usize)>)
    requires
        pos <= s@.len(),
    ensures
        match r {
            Some((e, m)) => spec_parse_unary(s@, pos as int) == Some((e.view(), m as int)) && pos
                < m <= s@.len(),
            None => spec_parse_unary(s@, pos as int) is None,
        },
    decreases s@.len() - pos, 3int,
{
    let j = skip_ws_exec(s, pos);
    match parse_unary_op_at(s, j) {
        Some((op, j2)) => {
            let k = skip_ws_exec(s, j2);
            match parse_unary_at(s, k) {
                Some((e, m)) => Some((Expr::UnaryExpr(op, Box::new(e)), m)),
                None => parse_primary_at(s, j),
            }
        },
        None => parse_primary_at(s, j),
    }
}

fn parse_primary_at(s: &Vec<char>, pos: usize) -> (r: Option<(Expr, usize)>)
    requires
        pos <= s@.len(),
    ensures
        match r {
            Some((e, m)) => spec_parse_primary(s@, pos as int) == Some((e.view(), m as int)) && pos
                < m <= s@.len(),
            None => spec_parse_primary(s@, pos as int) is None,
        },
    decreases s@.len() - pos, 2int,
{
    match parse_literal_at(s, pos) {
        Some((l, m)) => Some((Expr::Literal(l), m)),
        None => match parse_call_at(s, pos) {
            Some(((name, args), m)) => Some((Expr::FunctionCall(name, args), m)),
            None => {
                let e = scan_ident_end_exec(s, pos);
                if e > pos {
                    let name = crate::chars::string_from_chars(&sub_vec(s, pos, e));
                    Some((Expr::Ident(name), e))
                } else {
                    proof {
                        assert(spec_parse_identifier(s@, pos as int) is None);
                    }
                    parse_paren_at(s, pos)
                }
            },
        },
    }
}

fn parse_call_at(s: &Vec<char>, pos: usize) -> (r: Option<((Identifier, Vec<Expr>), usize)>)
    requires
        pos <= s@.len(),
    ensures
        match r {
            Some(((name, args), m)) => spec_parse_call(s@, pos as int) == Some(
                ((name.view(), exprs_view(args@)), m as int),
            ) && pos < m <= s@.len(),
            None => spec_parse_call(s@, pos as int) is None,
        },
    decreases s@.len() - pos, 1int,
{
    let e = scan_ident_end_exec(s, pos);
    if e == pos {
        return None;
    }
    let j = skip_ws_exec(s, e);
    if j == s.len() {
        return None;
    }
    if s[j] != '(' {
        return None;
    }
    let k = skip_ws_exec(s, j + 1);
    let parsed = match parse_level_at(s, k, 1) {
        Some((a0, m)) => {
            let mut first_arg: Vec<Expr> = Vec::new();
            proof {
                lemma_exprs_view_push(first_arg@, a0);
                assert(exprs_view(Seq::<Expr>::empty()) =~= Seq::<crate::ast::ExprV>::empty());
                assert(Seq::<crate::ast::ExprV>::empty().push(a0.view()) =~= seq![a0.view()]);
            }
            first_arg.push(a0);
            args_tail(s, first_arg, m)
        },
        None => {
            let none_args: Vec<Expr> = Vec::new();
            proof {
                assert(exprs_view(none_args@) =~= Seq::<crate::ast::ExprV>::empty());
            }
            (none_args, k)
        },
    };
    let args = parsed.0;
    let p = parsed.1;
    let q = skip_ws_exec(s, p);
    if q == s.len() {
        return None;
    }
    if s[q] != ')' {
        return None;
    }
    let name = crate::chars::string_from_chars(&sub_vec(s, pos, e));
    Some(((Identifier(name), args), q + 1))
}

fn args_tail(s: &Vec<char>, acc: Vec<Expr>, i: usize) -> (r: (Vec<Expr>, usize))
    requires
        i <= s@.len(),
    ensures
        spec_args_tail(s@, exprs_view(acc@), i as int) == (exprs_view(r.0@), r.1 as int),
        i <= r.1 <= s@.len(),
    decreases s@.len() - i, 0int,
{
    let j = skip_ws_exec(s, i);
    if j == s.len() {
        return (acc, i);
    }
    if s[j] != ',' {
        return (acc, i);
    }
    let k = skip_ws_exec(s, j + 1);
    match parse_level_at(s, k, 1) {
        None => (acc, i),
        Some((a, m)) => {
            let mut acc2 = acc;
            proof {
                lemma_exprs_view_push(acc2@, a);
            }
            acc2.push(a);
            args_tail(s, acc2, m)
        },
    }
}

fn parse_paren_at(s: &Vec<char>, pos: usize) -> (r: Option<(Expr, usize)>)
    requires
        pos <= s@.len(),
    ensures
        match r {
            Some((e, m)) => spec_parse_paren(s@, pos as int) == Some((e.view(), m as int)) && pos
                < m <= s@.len(),
            None => spec_parse_paren(s@, pos as int) is None,
        },
    decreases s@.len() - pos, 1int,
{
    let j = skip_ws_exec(s, pos);
    if j == s.len() {
        return None;
    }
    if s[j] != '(' {
        return None;
    }
    let k = skip_ws_exec(s, j + 1);
    match parse_level_at(s, k, 1) {
        None => None,
        Some((e, m)) => {
            let q = skip_ws_exec(s, m);
            if q == s.len() {
                return None;
            }
            if s[q] != ')' {
                return None;
            }
            let r2 = skip_ws_exec(s, q + 1);
            Some((Expr::Parenthesized(Box::new(e)), r2))
        },
    }
}

pub(crate) fn parse_expr_at(s: &Vec<char>, pos: usize) -> (r: Option<(Expr, usize)>)
    requires
        pos <= s@.len(),
    ensures
        match r {
            Some((e, m)) => spec_parse_expr(s@, pos as int) == Some((e.view(), m as int)) && pos
                < m <= s@.len(),
            None => spec_parse_expr(s@, pos as int) is None,
        },
{
    let j = skip_ws_exec(s, pos);
    match parse_level_at(s, j, 0) {
        None => None,
        Some((e, m)) => {
            let m2 = skip_ws_exec(s, m);
            Some((e, m2))
        },
    }
}

// ---------------------------------------------------------------------------
// The public string-slice interface
// ---------------------------------------------------------------------------
/// The remainder of `input` from character position `m`.
fn remainder_from(input: &str, m: usize) -> (r: &str)
    requires
        m <= input@.len(),
    ensures
        r@ == input@.subrange(m as int, input@.len() as int),
{
    let n = input.unicode_len();
    input.substring_char(m, n)
}

/// Parses a boolean literal: `true` or `false`. Returns the remainder and
/// the value, or `None` without consuming input.
pub fn parse_boolean<'a>(input: &'a str) -> (r: Option<(&'a str, bool)>)
    ensures
        (match spec_parse_boolean(input@, 0) {
            Some((b, m)) => (match r {
                Some((rem, b2)) => b2 == b && rem@ == input@.subrange(m, input@.len() as int),
                None => false,
            }),
            None => r is None,
        }),
{
    let cs = chars_vec(input);
    match parse_boolean_at(&cs, 0) {
        Some((b, m)) => Some((remainder_from(input, m), b)),
        None => None,
    }
}

/// Parses an identifier: one or more alphanumeric, hyphen, or underscore
/// characters. Returns the remainder and the matched text.
pub fn parse_identifier<'a>(input: &'a str) -> (r: Option<(&'a str, &'a str)>)
    ensures
        (match spec_parse_identifier(input@, 0) {
            Some((t, m)) => (match r {
                Some((rem, t2)) => t2@ == t && rem@ == input@.subrange(m, input@.len() as int),
                None => false,
            }),
            None => r is None,
        }),
{
    let cs = chars_vec(input);
    let e = scan_ident_end_exec(&cs, 0);
    if e > 0 {
        Some((remainder_from(input, e), input.substring_char(0, e)))
    } else {
        None
    }
}

/// Parses a numeric literal: optional `+` or `-`, digits, then optionally
/// `.` followed by any number of decimal digits.
pub fn parse_number<'a>(input: &'a str) -> (r: Option<(&'a str, Numeric)>)
    ensures
        (match spec_parse_number(input@, 0) {
            Some((nv, m)) => (match r {
                Some((rem, n)) => n.view() == nv && numeric_wf(nv) && rem@ == input@.subrange(
                    m,
                    input@.len() as int,
                ),
                None => false,
            }),
            None => r is None,
        }),
{
    let cs = chars_vec(input);
    match parse_number_at(&cs, 0) {
        Some((n, m)) => Some((remainder_from(input, m), n)),
        None => None,
    }
}

/// Parses a string literal: `"` … `"`, decoding the escapes `\"` and `\\`;
/// any other backslash-led sequence fails.
pub fn parse_string<'a>(input: &'a str) -> (r: Option<(&'a str, String)>)
    ensures
        (match spec_parse_string(input@, 0) {
            Some((t, m)) => (match r {
                Some((rem, t2)) => t2@ == t && rem@ == input@.subrange(m, input@.len() as int),
                None => false,
            }),
            None => r is None,
        }),
{
    let cs = chars_vec(input);
    match parse_string_at(&cs, 0) {
        Some((t, m)) => Some((remainder_from(input, m), string_from_chars(&t))),
        None => None,
    }
}

/// Parses a symbol literal: `:` followed by either an identifier-charset
/// token or a quoted string with escape support.
pub fn parse_symbol<'a>(input: &'a str) -> (r: Option<(&'a str, String)>)
    ensures
        (match spec_parse_symbol(input@, 0) {
            Some((t, m)) => (match r {
                Some((rem, t2)) => t2@ == t && rem@ == input@.subrange(m, input@.len() as int),
                None => false,
            }),
            None => r is None,
        }),
{
    let cs = chars_vec(input);
    match parse_symbol_at(&cs, 0) {
        Some((t, m)) => Some((remainder_from(input, m), string_from_chars(&t))),
        None => None,
    }
}

/// Parses a literal: boolean, symbol, string, or number, tried in that
/// order.
pub fn parse_literal<'a>(input: &'a str) -> (r: Option<(&'a str, Literal)>)
    ensures
        (match spec_parse_literal(input@, 0) {
            Some((lv, m)) => (match r {
                Some((rem, l)) => l.view() == lv && rem@ == input@.subrange(
                    m,
                    input@.len() as int,
                ),
                None => false,
            }),
            None => r is None,
        }),
{
    let cs = chars_vec(input);
    match parse_literal_at(&cs, 0) {
        Some((l, m)) => Some((remainder_from(input, m), l)),
        None => None,
    }
}

/// Parses a unary operator: `!`, `+`, or `-`.
pub fn parse_unary_op<'a>(input: &'a str) -> (r: Option<(&'a str, UnaryOp)>)
    ensures
        (match spec_parse_unary_op(input@, 0) {
            Some((op, m)) => (match r {
                Some((rem, op2)) => op2 == op && rem@ == input@.subrange(m, input@.len() as int),
                None => false,
            }),
            None => r is None,
        }),
{
    let cs = chars_vec(input);
    match parse_unary_op_at(&cs, 0) {
        Some((op, m)) => Some((remainder_from(input, m), op)),
        None => None,
    }
}

/// Parses a binary operator. Longer tokens are matched first, so `&&` is a
/// single token rather than two `&`, and likewise `||`, `^^`, and `|>`.
pub fn parse_binary_op<'a>(input: &'a str) -> (r: Option<(&'a str, BinaryOp)>)
    ensures
        (match spec_parse_binary_op(input@, 0) {
            Some((op, m)) => (match r {
                Some((rem, op2)) => op2 == op && rem@ == input@.subrange(m, input@.len() as int),
                None => false,
            }),
            None => r is None,
        }),
{
    let cs = chars_vec(input);
    match parse_binary_op_at(&cs, 0) {
        Some((op, m)) => Some((remainder_from(input, m), op)),
        None => None,
    }
}

/// Parses a function call: an identifier, `(`, comma-separated arguments
/// each parsed at the logical-or level, and `)`. Returns the remainder and
/// the name with the arguments.
pub fn parse_function_call<'a>(input: &'a str) -> (r: Option<(&'a str, (Identifier, Vec<Expr>))>)
    ensures
        (match spec_parse_call(input@, 0) {
            Some(((name, args), m)) => (match r {
                Some((rem, (name2, args2))) => name2.view() == name && exprs_view(args2@) == args
                    && rem@ == input@.subrange(m, input@.len() as int),
                None => false,
            }),
            None => r is None,
        }),
{
    let cs = chars_vec(input);
    match parse_call_at(&cs, 0) {
        Some(((name, args), m)) => Some((remainder_from(input, m), (name, args))),
        None => None,
    }
}

/// Parses an expression: unary and binary operators over the whole
/// precedence ladder, with the pipe level accepted only here at the top.
/// Returns the remainder and the expression; it does not itself require the
/// remainder to be empty — full consumption is the caller's decision.
pub fn parse_expr<'a>(input: &'a str) -> (r: Option<(&'a str, Expr)>)
    ensures
        (match spec_parse_expr(input@, 0) {
            Some((ev, m)) => (match r {
                Some((rem, e)) => e.view() == ev && rem@ == input@.subrange(
                    m,
                    input@.len() as int,
                ),
                None => false,
            }),
            None => r is None,
        }),
{
    let cs = chars_vec(input);
    match parse_expr_at(&cs, 0) {
        Some((e, m)) => Some((remainder_from(input, m), e)),
        None => None,
    }
}

impl Numeric {
    /// Parses the whole of `text` as a numeric literal — optional sign,
    /// digits, optionally `.` and digits — or fails with a syntax error
    /// when the grammar does not match or does not consume everything.
    pub fn new(text: &str) -> (r: Result<Numeric, Error>)
        ensures
            (match spec_parse_number(text@, 0) {
                Some((nv, m)) => {
                    if m == text@.len() {
                        r matches Ok(n) && n.view() == nv && numeric_wf(nv)
                    } else {
                        r matches Err(e) && (e matches Error::SyntaxError(msg) && msg@
                            == "Invalid number"@)
                    }
                },
                None => r matches Err(e) && (e matches Error::SyntaxError(msg) && msg@
                    == "Invalid number"@),
            }),
    {
        let cs = chars_vec(text);
        match parse_number_at(&cs, 0) {
            Some((n, m)) => {
                if m == cs.len() {
                    Ok(n)
                } else {
                    Err(Error::SyntaxError(String::from_str("Invalid number")))
                }
            },
            None => Err(Error::SyntaxError(String::from_str("Invalid number"))),
        }
    }
}

} // verus!
