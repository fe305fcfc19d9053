//! Laws of the library, each proved from the grammar alone.

use vstd::prelude::*;
use crate::ast::LiteralV;
use crate::grammar::escape_chars;
use crate::grammar::is_alnum_char;
use crate::grammar::is_ascii_word_char;
use crate::grammar::is_digit_char;
use crate::grammar::is_ident_char;
use crate::grammar::lemma_scan_digits_exact;
use crate::grammar::lemma_scan_ident_exact;
use crate::grammar::literal_chars;
use crate::grammar::spec_parse_binary_op;
use crate::grammar::spec_parse_literal;
use crate::grammar::spec_parse_number;
use crate::grammar::spec_parse_string;
use crate::grammar::spec_parse_symbol;
use crate::grammar::spec_string_body;
use crate::grammar::string_literal_chars;
use crate::grammar::symbol_chars;
use crate::grammar::valid_identifier;
use crate::numeric::NumericV;
use crate::numeric::lemma_canon_of_wf;
use crate::numeric::numeric_chars;
use crate::numeric::numeric_wf;
use crate::operands::BinaryOp;

verus! {

// ---------------------------------------------------------------------------
// Identifiers
// ---------------------------------------------------------------------------
/// Every non-empty text of ASCII letters, digits, `-` and `_` is a valid
/// identifier, so `Identifier::try_from` accepts it and, by its contract
/// together with `Identifier::as_str`, round-trips it unchanged.
pub proof fn lemma_identifier_accepts(s: Seq<char>)
    requires
        s.len() > 0,
        forall|i: int|
            0 <= i < s.len() ==> is_ascii_word_char(#[trigger] s[i]) || s[i] == '-' || s[i] == '_',
    ensures
        valid_identifier(s),
{
    assert forall|i: int| 0 <= i < s.len() implies is_ident_char(#[trigger] s[i]) by {
        let c = s[i];
        if is_ascii_word_char(c) {
            assert((c as u32) < 128);
            assert(is_alnum_char(c));
        }
    }
}

/// A text that is empty, or holds an ASCII character outside the set of
/// letters, digits, `-` and `_` (at position `i`), is not a valid
/// identifier, so `Identifier::try_from` rejects it.
pub proof fn lemma_identifier_rejects(s: Seq<char>, i: int)
    requires
        s.len() == 0 || (0 <= i < s.len() && (s[i] as u32) < 128 && !is_ascii_word_char(s[i])
            && s[i] != '-' && s[i] != '_'),
    ensures
        !valid_identifier(s),
{
}

// ---------------------------------------------------------------------------
// Operator tokens
// ---------------------------------------------------------------------------
/// `&&` is one `And` token, never two `BitAnd`; likewise `||` is `Or`,
/// `^^` is `Xor`, and `|>` is `Pipe`, wherever the pair occurs.
pub proof fn lemma_two_char_operators(s: Seq<char>, i: int)
    requires
        0 <= i,
        i + 2 <= s.len(),
    ensures
        s[i] == '&' && s[i + 1] == '&' ==> spec_parse_binary_op(s, i) == Some(
            (BinaryOp::And, i + 2),
        ),
        s[i] == '|' && s[i + 1] == '|' ==> spec_parse_binary_op(s, i) == Some(
            (BinaryOp::Or, i + 2),
        ),
        s[i] == '^' && s[i + 1] == '^' ==> spec_parse_binary_op(s, i) == Some(
            (BinaryOp::Xor, i + 2),
        ),
        s[i] == '|' && s[i + 1] == '>' ==> spec_parse_binary_op(s, i) == Some(
            (BinaryOp::Pipe, i + 2),
        ),
{
}

// ---------------------------------------------------------------------------
// String escapes
// ---------------------------------------------------------------------------
/// A string body that reaches a backslash followed by anything other than
/// `"` or `\` — or by the end of the input — fails.
pub proof fn lemma_string_body_bad_escape(s: Seq<char>, i: int, k: int)
    requires
        0 <= i <= k < s.len(),
        forall|t: int| i <= t < k ==> s[t] != '"' && #[trigger] s[t] != '\\',
        s[k] == '\\',
        k + 1 < s.len() ==> (s[k + 1] != '"' && s[k + 1] != '\\'),
    ensures
        spec_string_body(s, i) is None,
    decreases k - i,
{
    if i < k {
        lemma_string_body_bad_escape(s, i + 1, k);
    }
}

/// A string literal whose content reaches a backslash followed by anything
/// other than `"` or `\` fails to parse.
pub proof fn lemma_parse_string_rejects_escape(s: Seq<char>, k: int)
    requires
        s.len() > 0,
        s[0] == '"',
        1 <= k < s.len(),
        forall|t: int| 1 <= t < k ==> s[t] != '"' && #[trigger] s[t] != '\\',
        s[k] == '\\',
        k + 1 < s.len() ==> (s[k + 1] != '"' && s[k + 1] != '\\'),
    ensures
        spec_parse_string(s, 0) is None,
{
    lemma_string_body_bad_escape(s, 1, k);
}

// ---------------------------------------------------------------------------
// Round trips
// ---------------------------------------------------------------------------
/// A string body consisting of escaped text followed by a closing quote
/// parses back to exactly that text.
pub proof fn lemma_body_of_escaped(s: Seq<char>, i: int, c: Seq<char>)
    requires
        0 <= i <= s.len(),
        s.subrange(i, s.len() as int) == escape_chars(c) + seq!['"'],
    ensures
        spec_string_body(s, i) == Some((c, s.len() as int)),
    decreases c.len(),
{
    let tail = s.subrange(i, s.len() as int);
    if c.len() == 0 {
        assert(escape_chars(c) =~= Seq::<char>::empty());
        assert(tail =~= seq!['"']);
        assert(s.len() - i == 1);
        assert(s[i] == tail[0]);
        assert(c =~= Seq::<char>::empty());
    } else {
        let c0 = c[0];
        let crest = c.subrange(1, c.len() as int);
        let head = if c0 == '"' || c0 == '\\' {
            seq!['\\', c0]
        } else {
            seq![c0]
        };
        assert(escape_chars(c) == head + escape_chars(crest));
        assert(tail =~= head + (escape_chars(crest) + seq!['"']));
        assert(tail.len() == head.len() + escape_chars(crest).len() + 1);
        let h = head.len() as int;
        assert(tail.subrange(h, tail.len() as int) =~= escape_chars(crest) + seq!['"']);
        assert(s.subrange(i + h, s.len() as int) =~= tail.subrange(h, tail.len() as int));
        if c0 == '"' || c0 == '\\' {
            assert(s[i] == tail[0] && tail[0] == head[0]);
            assert(s[i + 1] == tail[1] && tail[1] == head[1]);
            assert(s[i] == '\\');
            assert(s[i + 1] == c0);
            lemma_body_of_escaped(s, i + 2, crest);
            assert(seq![s[i + 1]] + crest =~= c);
        } else {
            assert(s[i] == tail[0] && tail[0] == head[0]);
            assert(s[i] == c0);
            lemma_body_of_escaped(s, i + 1, crest);
            assert(seq![s[i]] + crest =~= c);
        }
    }
}

/// Any text, quoted and escaped, parses back to exactly that text,
/// consuming the whole literal.
pub proof fn lemma_parse_string_round(c: Seq<char>)
    ensures
        spec_parse_string(string_literal_chars(c), 0) == Some(
            (c, string_literal_chars(c).len() as int),
        ),
{
    let s = string_literal_chars(c);
    assert(s[0] == '"');
    assert(s.subrange(1, s.len() as int) =~= escape_chars(c) + seq!['"']);
    lemma_body_of_escaped(s, 1, c);
}

/// The textual form of a well-formed numeric value parses back to exactly
/// that value, consuming the whole literal.
pub proof fn lemma_numeric_round(n: NumericV)
    requires
        numeric_wf(n),
    ensures
        spec_parse_number(numeric_chars(n), 0) == Some((n, numeric_chars(n).len() as int)),
{
    let s = numeric_chars(n);
    let b: int = if n.negative {
        1
    } else {
        0
    };
    let d = b + n.int_digits.len();
    assert forall|k: int| b <= k < d implies is_digit_char(#[trigger] s[k]) by {
        assert(s[k] == n.int_digits[k - b]);
    }
    lemma_canon_of_wf(n);
    if n.frac_digits.len() > 0 {
        assert(s[d] == '.');
        assert(!is_digit_char('.'));
        lemma_scan_digits_exact(s, b, d);
        assert forall|k: int| d + 1 <= k < s.len() implies is_digit_char(#[trigger] s[k]) by {
            assert(s[k] == n.frac_digits[k - (d + 1)]);
        }
        lemma_scan_digits_exact(s, d + 1, s.len() as int);
        assert(s.subrange(b, d) =~= n.int_digits);
        assert(s.subrange(d + 1, s.len() as int) =~= n.frac_digits);
    } else {
        assert(d == s.len());
        lemma_scan_digits_exact(s, b, d);
        assert(s.subrange(b, d) =~= n.int_digits);
    }
    if n.negative {
        assert(s[0] == '-');
    } else {
        assert(s[0] == n.int_digits[0]);
        assert(is_digit_char(s[0]));
        assert(s[0] != '-' && s[0] != '+');
    }
}

/// The textual form of a symbol parses back to exactly its text, consuming
/// the whole literal: the identifier form when the text allows it, the
/// quoted form otherwise.
pub proof fn lemma_symbol_round(c: Seq<char>)
    ensures
        spec_parse_symbol(symbol_chars(c), 0) == Some((c, symbol_chars(c).len() as int)),
{
    let s = symbol_chars(c);
    assert(s[0] == ':');
    if valid_identifier(c) {
        assert(is_ident_char(c[0]));
        assert(!is_ident_char('"'));
        assert(s[1] == c[0]);
        assert(spec_parse_string(s, 1) is None);
        assert forall|k: int| 1 <= k < s.len() implies is_ident_char(#[trigger] s[k]) by {
            assert(s[k] == c[k - 1]);
        }
        lemma_scan_ident_exact(s, 1, s.len() as int);
        assert(s.subrange(1, s.len() as int) =~= c);
    } else {
        assert(s[1] == '"');
        assert(s.subrange(2, s.len() as int) =~= escape_chars(c) + seq!['"']);
        lemma_body_of_escaped(s, 2, c);
    }
}

/// Well-formedness of a literal value: numbers canonical, the rest
/// unconstrained.
pub open spec fn literal_wf(l: LiteralV) -> bool {
    match l {
        LiteralV::Number(n) => numeric_wf(n),
        LiteralV::String(_) => true,
        LiteralV::Boolean(_) => true,
        LiteralV::Symbol(_) => true,
    }
}

/// Round trip: for every literal value constructible by the API, its
/// textual form parses back — through the literal dispatcher — to an equal
/// value, consuming the whole text.
pub proof fn lemma_literal_round_trip(l: LiteralV)
    requires
        literal_wf(l),
    ensures
        spec_parse_literal(literal_chars(l), 0) == Some((l, literal_chars(l).len() as int)),
{
    let s = literal_chars(l);
    match l {
        LiteralV::Boolean(b) => {
            if b {
                assert(s =~= seq!['t', 'r', 'u', 'e']);
            } else {
                assert(s =~= seq!['f', 'a', 'l', 's', 'e']);
            }
        },
        LiteralV::Number(n) => {
            lemma_numeric_round(n);
            if n.negative {
                assert(s[0] == '-');
            } else {
                assert(s[0] == n.int_digits[0]);
                assert(is_digit_char(s[0]));
            }
            assert(s[0] != 't' && s[0] != 'f' && s[0] != ':' && s[0] != '"');
        },
        LiteralV::String(c) => {
            lemma_parse_string_round(c);
            assert(s[0] == '"');
            assert(s[0] != 't' && s[0] != 'f' && s[0] != ':');
        },
        LiteralV::Symbol(c) => {
            lemma_symbol_round(c);
            assert(s[0] == ':');
            assert(s[0] != 't' && s[0] != 'f');
        },
    }
}

} // verus!
