//! The grammar of the language, stated mathematically.
//!
//! Every function here is specification-level: it defines, over sequences of
//! characters, exactly which prefix each sub-parser consumes and which value
//! it produces. The executable parser is verified against these definitions.
//! Failure is `None`; success carries the parsed value and the position of
//! the first unconsumed character. Alternatives are ordered and a failing
//! alternative consumes nothing, mirroring backtracking alternation.

use vstd::prelude::*;
use crate::ast::ExprV;
use crate::ast::LiteralV;
use crate::numeric::NumericV;
use crate::numeric::canon_numeric;
use crate::numeric::numeric_chars;
use crate::operands::BinaryOp;
use crate::operands::UnaryOp;

verus! {

// ---------------------------------------------------------------------------
// Character classes
// ---------------------------------------------------------------------------
/// Whitespace skipped around operators and primaries: space, tab, newline,
/// carriage return.
pub open spec fn is_space_char(c: char) -> bool {
    c == ' ' || c == '\t' || c == '\n' || c == '\r'
}

/// An ASCII decimal digit.
pub open spec fn is_digit_char(c: char) -> bool {
    '0' <= c && c <= '9'
}

/// An ASCII letter or digit.
pub open spec fn is_ascii_word_char(c: char) -> bool {
    ('a' <= c && c <= 'z') || ('A' <= c && c <= 'Z') || is_digit_char(c)
}

/// Whether a character beyond ASCII counts as alphanumeric. The class is
/// the Unicode one used by `char::is_alphanumeric`; it is left abstract and
/// is tied to the standard library by the trusted classifier in the parser.
pub uninterp spec fn unicode_alnum(c: char) -> bool;

/// An alphanumeric character: on ASCII exactly a letter or digit, beyond
/// ASCII the Unicode alphanumeric class.
pub open spec fn is_alnum_char(c: char) -> bool {
    if (c as u32) < 128 {
        is_ascii_word_char(c)
    } else {
        unicode_alnum(c)
    }
}

/// A character allowed in an identifier: alphanumeric, `-`, or `_`.
pub open spec fn is_ident_char(c: char) -> bool {
    is_alnum_char(c) || c == '-' || c == '_'
}

/// A well-formed identifier text: non-empty, all characters drawn from the
/// identifier class.
pub open spec fn valid_identifier(s: Seq<char>) -> bool {
    s.len() > 0 && (forall|i: int| 0 <= i < s.len() ==> is_ident_char(#[trigger] s[i]))
}

// ---------------------------------------------------------------------------
// Scanners
// ---------------------------------------------------------------------------
/// The first position at or after `i` holding a non-whitespace character
/// (or the end of the input).
pub open spec fn skip_ws(s: Seq<char>, i: int) -> int
    decreases s.len() - i,
{
    if 0 <= i < s.len() && is_space_char(s[i]) {
        skip_ws(s, i + 1)
    } else {
        i
    }
}

/// The end of the run of identifier characters starting at `i`.
pub open spec fn scan_ident_end(s: Seq<char>, i: int) -> int
    decreases s.len() - i,
{
    if 0 <= i < s.len() && is_ident_char(s[i]) {
        scan_ident_end(s, i + 1)
    } else {
        i
    }
}

/// The end of the run of decimal digits starting at `i`.
pub open spec fn scan_digits_end(s: Seq<char>, i: int) -> int
    decreases s.len() - i,
{
    if 0 <= i < s.len() && is_digit_char(s[i]) {
        scan_digits_end(s, i + 1)
    } else {
        i
    }
}

pub proof fn lemma_scan_digits_bounds(s: Seq<char>, i: int)
    requires
        0 <= i <= s.len(),
    ensures
        i <= scan_digits_end(s, i) <= s.len(),
        forall|k: int| i <= k < scan_digits_end(s, i) ==> is_digit_char(#[trigger] s[k]),
        scan_digits_end(s, i) < s.len() ==> !is_digit_char(s[scan_digits_end(s, i)]),
    decreases s.len() - i,
{
    if i < s.len() && is_digit_char(s[i]) {
        lemma_scan_digits_bounds(s, i + 1);
    }
}

/// A run of digits over `[i, j)` that stops at `j` is scanned to exactly `j`.
pub proof fn lemma_scan_digits_exact(s: Seq<char>, i: int, j: int)
    requires
        0 <= i <= j <= s.len(),
        forall|k: int| i <= k < j ==> is_digit_char(#[trigger] s[k]),
        j == s.len() || !is_digit_char(s[j]),
    ensures
        scan_digits_end(s, i) == j,
    decreases j - i,
{
    if i < j {
        lemma_scan_digits_exact(s, i + 1, j);
    }
}

/// A run of identifier characters over `[i, j)` that stops at `j` is scanned
/// to exactly `j`.
pub proof fn lemma_scan_ident_exact(s: Seq<char>, i: int, j: int)
    requires
        0 <= i <= j <= s.len(),
        forall|k: int| i <= k < j ==> is_ident_char(#[trigger] s[k]),
        j == s.len() || !is_ident_char(s[j]),
    ensures
        scan_ident_end(s, i) == j,
    decreases j - i,
{
    if i < j {
        lemma_scan_ident_exact(s, i + 1, j);
    }
}

// ---------------------------------------------------------------------------
// Literal lexers
// ---------------------------------------------------------------------------
/// Boolean literal: exactly the token `true` or `false`, no case folding.
pub open spec fn spec_parse_boolean(s: Seq<char>, i: int) -> Option<(bool, int)> {
    if i + 4 <= s.len() && s[i] == 't' && s[i + 1] == 'r' && s[i + 2] == 'u' && s[i + 3] == 'e' {
        Some((true, i + 4))
    } else if i + 5 <= s.len() && s[i] == 'f' && s[i + 1] == 'a' && s[i + 2] == 'l' && s[i + 3]
        == 's' && s[i + 4] == 'e' {
        Some((false, i + 5))
    } else {
        None
    }
}

/// Identifier: one or more alphanumeric, hyphen, or underscore characters.
pub open spec fn spec_parse_identifier(s: Seq<char>, i: int) -> Option<(Seq<char>, int)> {
    let e = scan_ident_end(s, i);
    if e > i {
        Some((s.subrange(i, e), e))
    } else {
        None
    }
}

/// Number: optional sign, one or more digits, then optionally `.` and zero
/// or more digits; the digits denote the canonical decimal value.
pub open spec fn spec_parse_number(s: Seq<char>, i: int) -> Option<(NumericV, int)> {
    let negative = i < s.len() && s[i] == '-';
    let signed = i < s.len() && (s[i] == '-' || s[i] == '+');
    let j = if signed {
        i + 1
    } else {
        i
    };
    let d = scan_digits_end(s, j);
    if d == j {
        None
    } else if d < s.len() && s[d] == '.' {
        let f = scan_digits_end(s, d + 1);
        Some((canon_numeric(negative, s.subrange(j, d), s.subrange(d + 1, f)), f))
    } else {
        Some((canon_numeric(negative, s.subrange(j, d), Seq::<char>::empty()), d))
    }
}

/// The inside of a string literal, from just after the opening quote. The
/// scan ends at an unescaped `"`; `\"` decodes to `"` and `\\` to `\`; a
/// backslash before any other character, or a missing closing quote, fails.
pub open spec fn spec_string_body(s: Seq<char>, i: int) -> Option<(Seq<char>, int)>
    decreases s.len() - i,
{
    if !(0 <= i < s.len()) {
        None
    } else if s[i] == '"' {
        Some((Seq::<char>::empty(), i + 1))
    } else if s[i] == '\\' {
        if i + 1 < s.len() && (s[i + 1] == '"' || s[i + 1] == '\\') {
            match spec_string_body(s, i + 2) {
                Some((rest, j)) => Some((seq![s[i + 1]] + rest, j)),
                None => None,
            }
        } else {
            None
        }
    } else {
        match spec_string_body(s, i + 1) {
            Some((rest, j)) => Some((seq![s[i]] + rest, j)),
            None => None,
        }
    }
}

/// A successful string-body scan always moves forward and stays in bounds.
pub proof fn lemma_string_body_bounds(s: Seq<char>, i: int)
    requires
        0 <= i <= s.len(),
    ensures
        (match spec_string_body(s, i) {
            Some((rest, j)) => i < j <= s.len(),
            None => true,
        }),
    decreases s.len() - i,
{
    if i < s.len() {
        if s[i] == '"' {
        } else if s[i] == '\\' {
            if i + 1 < s.len() && (s[i + 1] == '"' || s[i + 1] == '\\') {
                lemma_string_body_bounds(s, i + 2);
            }
        } else {
            lemma_string_body_bounds(s, i + 1);
        }
    }
}

/// String literal: `"` … `"` with the two escapes `\"` and `\\`.
pub open spec fn spec_parse_string(s: Seq<char>, i: int) -> Option<(Seq<char>, int)> {
    if i < s.len() && s[i] == '"' {
        spec_string_body(s, i + 1)
    } else {
        None
    }
}

/// Symbol literal: `:` followed by a quoted string (tried first) or a run
/// of identifier characters.
pub open spec fn spec_parse_symbol(s: Seq<char>, i: int) -> Option<(Seq<char>, int)> {
    if i < s.len() && s[i] == ':' {
        match spec_parse_string(s, i + 1) {
            Some(r) => Some(r),
            None => {
                let e = scan_ident_end(s, i + 1);
                if e > i + 1 {
                    Some((s.subrange(i + 1, e), e))
                } else {
                    None
                }
            },
        }
    } else {
        None
    }
}

/// Literal: boolean, symbol, string, then number, tried in that order.
pub open spec fn spec_parse_literal(s: Seq<char>, i: int) -> Option<(LiteralV, int)> {
    match spec_parse_boolean(s, i) {
        Some((b, j)) => Some((LiteralV::Boolean(b), j)),
        None => match spec_parse_symbol(s, i) {
            Some((t, j)) => Some((LiteralV::Symbol(t), j)),
            None => match spec_parse_string(s, i) {
                Some((t, j)) => Some((LiteralV::String(t), j)),
                None => match spec_parse_number(s, i) {
                    Some((n, j)) => Some((LiteralV::Number(n), j)),
                    None => None,
                },
            },
        },
    }
}

// ---------------------------------------------------------------------------
// Operator tables
// ---------------------------------------------------------------------------
/// Unary operator: `!`, `+`, or `-`.
pub open spec fn spec_parse_unary_op(s: Seq<char>, i: int) -> Option<(UnaryOp, int)> {
    if i < s.len() && s[i] == '!' {
        Some((UnaryOp::Not, i + 1))
    } else if i < s.len() && s[i] == '+' {
        Some((UnaryOp::Plus, i + 1))
    } else if i < s.len() && s[i] == '-' {
        Some((UnaryOp::Minus, i + 1))
    } else {
        None
    }
}

/// Binary operator, longest match first: `|>`, `&&`, `||`, `^^` before the
/// single-character tokens `&`, `|`, `^`, `*`, `+`, `/`, `-`.
pub open spec fn spec_parse_binary_op(s: Seq<char>, i: int) -> Option<(BinaryOp, int)> {
    if i + 2 <= s.len() && s[i] == '|' && s[i + 1] == '>' {
        Some((BinaryOp::Pipe, i + 2))
    } else if i + 2 <= s.len() && s[i] == '&' && s[i + 1] == '&' {
        Some((BinaryOp::And, i + 2))
    } else if i + 2 <= s.len() && s[i] == '|' && s[i + 1] == '|' {
        Some((BinaryOp::Or, i + 2))
    } else if i + 2 <= s.len() && s[i] == '^' && s[i + 1] == '^' {
        Some((BinaryOp::Xor, i + 2))
    } else if i < s.len() && s[i] == '&' {
        Some((BinaryOp::BitAnd, i + 1))
    } else if i < s.len() && s[i] == '|' {
        Some((BinaryOp::BitOr, i + 1))
    } else if i < s.len() && s[i] == '^' {
        Some((BinaryOp::BitXor, i + 1))
    } else if i < s.len() && s[i] == '*' {
        Some((BinaryOp::Mul, i + 1))
    } else if i < s.len() && s[i] == '+' {
        Some((BinaryOp::Add, i + 1))
    } else if i < s.len() && s[i] == '/' {
        Some((BinaryOp::Div, i + 1))
    } else if i < s.len() && s[i] == '-' {
        Some((BinaryOp::Sub, i + 1))
    } else {
        None
    }
}

// ---------------------------------------------------------------------------
// The precedence ladder
// ---------------------------------------------------------------------------
/// The operators accepted at each binding level, loosest first: pipe, then
/// logical or/and/xor, then bitwise or/xor/and, then additive, then
/// multiplicative.
pub open spec fn op_in_level(op: BinaryOp, lev: int) -> bool {
    match op {
        BinaryOp::Pipe => lev == 0,
        BinaryOp::Or => lev == 1,
        BinaryOp::And => lev == 2,
        BinaryOp::Xor => lev == 3,
        BinaryOp::BitOr => lev == 4,
        BinaryOp::BitXor => lev == 5,
        BinaryOp::BitAnd => lev == 6,
        BinaryOp::Add => lev == 7,
        BinaryOp::Sub => lev == 7,
        BinaryOp::Mul => lev == 8,
        BinaryOp::Div => lev == 8,
    }
}

/// One binding level: one operand at the next tighter level, then zero or
/// more `(whitespace, operator of this level, whitespace, operand)` groups
/// folded left-associatively by `spec_level_tail`.
pub open spec fn spec_parse_level(s: Seq<char>, i: int, lev: int) -> Option<(ExprV, int)>
    decreases s.len() - i, 12 - lev,
{
    if !(0 <= lev <= 8 && 0 <= i <= s.len()) {
        None
    } else {
        let first = if lev == 8 {
            spec_parse_unary(s, i)
        } else {
            spec_parse_level(s, i, lev + 1)
        };
        match first {
            Some((e0, i1)) => {
                if i < i1 <= s.len() {
                    Some(spec_level_tail(s, lev, e0, i1))
                } else {
                    Some((e0, i1))
                }
            },
            None => None,
        }
    }
}

/// The left-associative fold at one binding level: starting from `acc`,
/// repeatedly consume whitespace, an operator of the level, whitespace, and
/// an operand, nesting each match as `BinaryExpr(acc, op, operand)`. A group
/// that does not complete leaves the input where the group began.
pub open spec fn spec_level_tail(s: Seq<char>, lev: int, acc: ExprV, i: int) -> (ExprV, int)
    decreases s.len() - i, 0int,
{
    if !(0 <= lev <= 8 && 0 <= i <= s.len()) {
        (acc, i)
    } else {
        let j = skip_ws(s, i);
        if !(i <= j < s.len()) {
            (acc, i)
        } else {
            match spec_parse_binary_op(s, j) {
                Some((op, j2)) => {
                    if op_in_level(op, lev) && j < j2 <= s.len() {
                        let k = skip_ws(s, j2);
                        if i < k <= s.len() {
                            let rhs = if lev == 8 {
                                spec_parse_unary(s, k)
                            } else {
                                spec_parse_level(s, k, lev + 1)
                            };
                            match rhs {
                                Some((e1, m)) => {
                                    if k < m <= s.len() {
                                        spec_level_tail(
                                            s,
                                            lev,
                                            ExprV::BinaryExpr(Box::new(acc), op, Box::new(e1)),
                                            m,
                                        )
                                    } else {
                                        (acc, i)
                                    }
                                },
                                None => (acc, i),
                            }
                        } else {
                            (acc, i)
                        }
                    } else {
                        (acc, i)
                    }
                },
                None => (acc, i),
            }
        }
    }
}

/// Unary level: after optional whitespace, either a unary operator (with
/// optional whitespace) prefixing another unary expression — so operators
/// stack — or a primary. A matched operator whose operand fails falls back
/// to parsing a primary at the position after the leading whitespace.
pub open spec fn spec_parse_unary(s: Seq<char>, i: int) -> Option<(ExprV, int)>
    decreases s.len() - i, 3int,
{
    if !(0 <= i <= s.len()) {
        None
    } else {
        let j = skip_ws(s, i);
        if !(i <= j <= s.len()) {
            None
        } else {
            match spec_parse_unary_op(s, j) {
                Some((op, j2)) => {
                    if j < j2 <= s.len() {
                        let k = skip_ws(s, j2);
                        if j2 <= k <= s.len() && i < k {
                            match spec_parse_unary(s, k) {
                                Some((e, m)) => Some((ExprV::UnaryExpr(op, Box::new(e)), m)),
                                None => spec_parse_primary(s, j),
                            }
                        } else {
                            spec_parse_primary(s, j)
                        }
                    } else {
                        spec_parse_primary(s, j)
                    }
                },
                None => spec_parse_primary(s, j),
            }
        }
    }
}

/// Primary: a literal, a function call, a bare identifier, or a
/// parenthesized sub-expression, tried in that order.
pub open spec fn spec_parse_primary(s: Seq<char>, i: int) -> Option<(ExprV, int)>
    decreases s.len() - i, 2int,
{
    if !(0 <= i <= s.len()) {
        None
    } else {
        match spec_parse_literal(s, i) {
            Some((l, j)) => Some((ExprV::Literal(l), j)),
            None => match spec_parse_call(s, i) {
                Some(((name, args), j)) => Some((ExprV::FunctionCall(name, args), j)),
                None => match spec_parse_identifier(s, i) {
                    Some((t, j)) => Some((ExprV::Ident(t), j)),
                    None => spec_parse_paren(s, i),
                },
            },
        }
    }
}

/// Function call: an identifier, optional whitespace, `(`, a comma-separated
/// argument list — each argument parsed at the logical-or level, not the
/// pipe level — and `)`. Zero arguments is legal.
pub open spec fn spec_parse_call(s: Seq<char>, i: int) -> Option<((Seq<char>, Seq<ExprV>), int)>
    decreases s.len() - i, 1int,
{
    if !(0 <= i <= s.len()) {
        None
    } else {
        let e = scan_ident_end(s, i);
        if !(i < e <= s.len()) {
            None
        } else {
            let name = s.subrange(i, e);
            let j = skip_ws(s, e);
            if !(e <= j < s.len() && s[j] == '(') {
                None
            } else {
                let k = skip_ws(s, j + 1);
                if !(j + 1 <= k <= s.len() && i < k) {
                    None
                } else {
                    let parsed = match spec_parse_level(s, k, 1) {
                        Some((a0, m)) => if k < m <= s.len() {
                            spec_args_tail(s, seq![a0], m)
                        } else {
                            (seq![a0], m)
                        },
                        None => (Seq::<ExprV>::empty(), k),
                    };
                    let args = parsed.0;
                    let p = parsed.1;
                    if !(0 <= p <= s.len()) {
                        None
                    } else {
                        let q = skip_ws(s, p);
                        if p <= q < s.len() && s[q] == ')' {
                            Some(((name, args), q + 1))
                        } else {
                            None
                        }
                    }
                }
            }
        }
    }
}

/// The tail of a comma-separated argument list: repeatedly consume
/// whitespace, `,`, whitespace, and an argument at the logical-or level. A
/// separator whose argument fails leaves the input where the separator
/// began.
pub open spec fn spec_args_tail(s: Seq<char>, acc: Seq<ExprV>, i: int) -> (Seq<ExprV>, int)
    decreases s.len() - i, 0int,
{
    if !(0 <= i <= s.len()) {
        (acc, i)
    } else {
        let j = skip_ws(s, i);
        if !(i <= j < s.len() && s[j] == ',') {
            (acc, i)
        } else {
            let k = skip_ws(s, j + 1);
            if !(j + 1 <= k <= s.len() && i < k) {
                (acc, i)
            } else {
                match spec_parse_level(s, k, 1) {
                    Some((a, m)) => if k < m <= s.len() {
                        spec_args_tail(s, acc.push(a), m)
                    } else {
                        (acc, i)
                    },
                    None => (acc, i),
                }
            }
        }
    }
}

/// Parenthesized sub-expression: whitespace, `(`, whitespace, an inner
/// expression parsed at the logical-or level — not the pipe level —
/// whitespace, `)`, trailing whitespace.
pub open spec fn spec_parse_paren(s: Seq<char>, i: int) -> Option<(ExprV, int)>
    decreases s.len() - i, 1int,
{
    if !(0 <= i <= s.len()) {
        None
    } else {
        let j = skip_ws(s, i);
        if !(i <= j < s.len() && s[j] == '(') {
            None
        } else {
            let k = skip_ws(s, j + 1);
            if !(j + 1 <= k <= s.len() && i < k) {
                None
            } else {
                match spec_parse_level(s, k, 1) {
                    Some((e, m)) => {
                        if k < m <= s.len() {
                            let q = skip_ws(s, m);
                            if m <= q < s.len() && s[q] == ')' {
                                let r = skip_ws(s, q + 1);
                                if q + 1 <= r <= s.len() {
                                    Some((ExprV::Parenthesized(Box::new(e)), r))
                                } else {
                                    None
                                }
                            } else {
                                None
                            }
                        } else {
                            None
                        }
                    },
                    None => None,
                }
            }
        }
    }
}

// ---------------------------------------------------------------------------
// Textual forms
// ---------------------------------------------------------------------------
/// The string-literal escaping of arbitrary text: `"` and `\` gain a
/// leading backslash, every other character stands for itself.
pub open spec fn escape_chars(s: Seq<char>) -> Seq<char>
    decreases s.len(),
{
    if s.len() == 0 {
        Seq::<char>::empty()
    } else {
        let head = if s[0] == '"' || s[0] == '\\' {
            seq!['\\', s[0]]
        } else {
            seq![s[0]]
        };
        head + escape_chars(s.subrange(1, s.len() as int))
    }
}

/// The textual form of a string literal: quoted and escaped.
pub open spec fn string_literal_chars(s: Seq<char>) -> Seq<char> {
    seq!['"'] + escape_chars(s) + seq!['"']
}

/// The textual form of a symbol literal: the identifier form when the text
/// allows it, otherwise the quoted form.
pub open spec fn symbol_chars(s: Seq<char>) -> Seq<char> {
    if valid_identifier(s) {
        seq![':'] + s
    } else {
        seq![':'] + string_literal_chars(s)
    }
}

/// The textual form of a literal.
pub open spec fn literal_chars(l: LiteralV) -> Seq<char> {
    match l {
        LiteralV::Number(n) => numeric_chars(n),
        LiteralV::String(s) => string_literal_chars(s),
        LiteralV::Boolean(b) => if b {
            seq!['t', 'r', 'u', 'e']
        } else {
            seq!['f', 'a', 'l', 's', 'e']
        },
        LiteralV::Symbol(s) => symbol_chars(s),
    }
}

/// Escaping distributes over concatenation.
pub proof fn lemma_escape_append(a: Seq<char>, b: Seq<char>)
    ensures
        escape_chars(a + b) == escape_chars(a) + escape_chars(b),
    decreases a.len(),
{
    if a.len() == 0 {
        assert(a + b =~= b);
        assert(escape_chars(a) + escape_chars(b) =~= escape_chars(b));
    } else {
        let t = a + b;
        assert(t[0] == a[0]);
        assert(t.subrange(1, t.len() as int) =~= a.subrange(1, a.len() as int) + b);
        lemma_escape_append(a.subrange(1, a.len() as int), b);
        let head = if a[0] == '"' || a[0] == '\\' {
            seq!['\\', a[0]]
        } else {
            seq![a[0]]
        };
        assert(head + (escape_chars(a.subrange(1, a.len() as int)) + escape_chars(b)) =~= (head
            + escape_chars(a.subrange(1, a.len() as int))) + escape_chars(b));
    }
}

/// The whole expression grammar: leading whitespace, the pipe level — the
/// loosest — then trailing whitespace. The result is the parsed expression
/// and the position of the first unconsumed character; the grammar does not
/// itself require that position to be the end of the input.
pub open spec fn spec_parse_expr(s: Seq<char>, i: int) -> Option<(ExprV, int)> {
    if !(0 <= i <= s.len()) {
        None
    } else {
        let j = skip_ws(s, i);
        if !(i <= j <= s.len()) {
            None
        } else {
            match spec_parse_level(s, j, 0) {
                Some((e, m)) => if 0 <= m <= s.len() {
                    Some((e, skip_ws(s, m)))
                } else {
                    None
                },
                None => None,
            }
        }
    }
}

} // verus!
