//! Executable character-level helpers shared by the lexers and the parser,
//! verified against the character classes and scanners of the grammar.

use vstd::prelude::*;
use vstd::string::StrSliceExecFns;
use crate::grammar::is_space_char;
use crate::grammar::is_digit_char;
use crate::grammar::is_alnum_char;
use crate::grammar::is_ident_char;
use crate::grammar::skip_ws;
use crate::grammar::scan_ident_end;
use crate::grammar::scan_digits_end;

verus! {

pub(crate) fn is_space_exec(c: char) -> (r: bool)
    ensures
        r == is_space_char(c),
{
    c == ' ' || c == '\t' || c == '\n' || c == '\r'
}

pub(crate) fn is_digit_exec(c: char) -> (r: bool)
    ensures
        r == is_digit_char(c),
{
    '0' <= c && c <= '9'
}

/// Relies on `char::is_alphanumeric`: the result depends on the character
/// alone; on ASCII it holds exactly of letters and digits, beyond ASCII it
/// is the Unicode alphanumeric class named by `unicode_alnum`.
#[verifier::external_body]
pub(crate) fn char_is_alphanumeric(c: char) -> (r: bool)
    ensures
        r == is_alnum_char(c),
        (c as u32) >= 128 ==> r == crate::grammar::unicode_alnum(c),
{
    c.is_alphanumeric()
}

pub(crate) fn is_ident_char_exec(c: char) -> (r: bool)
    ensures
        r == is_ident_char(c),
{
    char_is_alphanumeric(c) || c == '-' || c == '_'
}

/// Relies on `String`'s `FromIterator<char>`: collecting characters yields
/// the string holding exactly those characters in order.
#[verifier::external_body]
pub(crate) fn string_from_chars(v: &Vec<char>) -> (r: String)
    ensures
        r@ == v@,
{
    v.iter().collect()
}

/// The characters of a string slice, in order.
pub(crate) fn chars_vec(s: &str) -> (r: Vec<char>)
    ensures
        r@ == s@,
{
    let n = s.unicode_len();
    let mut r: Vec<char> = Vec::new();
    let mut i: usize = 0;
    while i < n
        invariant
            n == s@.len(),
            i <= n,
            r@ == s@.subrange(0, i as int),
        decreases n - i,
    {
        r.push(s.get_char(i));
        proof {
            assert(r@ =~= s@.subrange(0, i + 1));
        }
        i = i + 1;
    }
    proof {
        assert(r@ =~= s@);
    }
    r
}

/// A copy of `s[a..b]`.
pub(crate) fn sub_vec(s: &Vec<char>, a: usize, b: usize) -> (r: Vec<char>)
    requires
        a <= b <= s@.len(),
    ensures
        r@ == s@.subrange(a as int, b as int),
{
    let mut r: Vec<char> = Vec::new();
    let mut i: usize = a;
    while i < b
        invariant
            a <= i <= b <= s@.len(),
            r@ == s@.subrange(a as int, i as int),
        decreases b - i,
    {
        r.push(s[i]);
        proof {
            assert(r@ =~= s@.subrange(a as int, i + 1));
        }
        i = i + 1;
    }
    r
}

/// Appends all of `src` to `dst`.
pub(crate) fn push_all(dst: &mut Vec<char>, src: &Vec<char>)
    ensures
        final(dst)@ == old(dst)@ + src@,
{
    let ghost dst0 = dst@;
    let mut i: usize = 0;
    while i < src.len()
        invariant
            i <= src@.len(),
            dst@ == dst0 + src@.subrange(0, i as int),
        decreases src@.len() - i,
    {
        dst.push(src[i]);
        proof {
            assert(dst@ =~= dst0 + src@.subrange(0, i + 1));
        }
        i = i + 1;
    }
    proof {
        assert(dst@ =~= dst0 + src@);
    }
}

/// Whether the characters form a valid identifier: non-empty, all drawn
/// from the identifier class.
pub(crate) fn is_valid_identifier_chars(cs: &Vec<char>) -> (r: bool)
    ensures
        r == crate::grammar::valid_identifier(cs@),
{
    if cs.len() == 0 {
        return false;
    }
    let mut i: usize = 0;
    while i < cs.len()
        invariant
            i <= cs@.len(),
            forall|k: int| 0 <= k < i ==> is_ident_char(#[trigger] cs@[k]),
        decreases cs@.len() - i,
    {
        if !is_ident_char_exec(cs[i]) {
            return false;
        }
        i = i + 1;
    }
    true
}

/// Appends the string-literal escaping of `s` to `out`.
pub(crate) fn push_escaped(out: &mut Vec<char>, s: &Vec<char>)
    ensures
        final(out)@ == old(out)@ + crate::grammar::escape_chars(s@),
{
    let ghost out0 = out@;
    proof {
        assert(s@.subrange(0, 0) =~= Seq::<char>::empty());
        assert(out0 + crate::grammar::escape_chars(s@.subrange(0, 0)) =~= out0);
    }
    let mut i: usize = 0;
    while i < s.len()
        invariant
            i <= s@.len(),
            out@ == out0 + crate::grammar::escape_chars(s@.subrange(0, i as int)),
        decreases s@.len() - i,
    {
        proof {
            let pre = s@.subrange(0, i as int);
            let one = seq![s@[i as int]];
            crate::grammar::lemma_escape_append(pre, one);
            assert(s@.subrange(0, i + 1) =~= pre + one);
            assert(one.subrange(1, 1) =~= Seq::<char>::empty());
            assert(crate::grammar::escape_chars(Seq::<char>::empty())
                =~= Seq::<char>::empty());
            if s@[i as int] == '"' || s@[i as int] == '\\' {
                assert(crate::grammar::escape_chars(one) =~= seq!['\\', s@[i as int]]);
            } else {
                assert(crate::grammar::escape_chars(one) =~= seq![s@[i as int]]);
            }
        }
        let c = s[i];
        if c == '"' || c == '\\' {
            out.push('\\');
            out.push(c);
        } else {
            out.push(c);
        }
        proof {
            assert(out@ =~= out0 + crate::grammar::escape_chars(s@.subrange(0, i + 1)));
        }
        i = i + 1;
    }
    proof {
        assert(s@.subrange(0, s@.len() as int) =~= s@);
    }
}

pub(crate) fn skip_ws_exec(s: &Vec<char>, pos: usize) -> (r: usize)
    requires
        pos <= s@.len(),
    ensures
        r as int == skip_ws(s@, pos as int),
        pos <= r <= s@.len(),
{
    let mut i: usize = pos;
    loop
        invariant
            pos <= i <= s@.len(),
            skip_ws(s@, pos as int) == skip_ws(s@, i as int),
        ensures
            pos <= i <= s@.len(),
            skip_ws(s@, pos as int) == i as int,
        decreases s@.len() - i,
    {
        if i == s.len() {
            break;
        }
        if !is_space_exec(s[i]) {
            break;
        }
        i = i + 1;
    }
    i
}

pub(crate) fn scan_ident_end_exec(s: &Vec<char>, pos: usize) -> (r: usize)
    requires
        pos <= s@.len(),
    ensures
        r as int == scan_ident_end(s@, pos as int),
        pos <= r <= s@.len(),
{
    let mut i: usize = pos;
    loop
        invariant
            pos <= i <= s@.len(),
            scan_ident_end(s@, pos as int) == scan_ident_end(s@, i as int),
        ensures
            pos <= i <= s@.len(),
            scan_ident_end(s@, pos as int) == i as int,
        decreases s@.len() - i,
    {
        if i == s.len() {
            break;
        }
        if !is_ident_char_exec(s[i]) {
            break;
        }
        i = i + 1;
    }
    i
}

pub(crate) fn scan_digits_end_exec(s: &Vec<char>, pos: usize) -> (r: usize)
    requires
        pos <= s@.len(),
    ensures
        r as int == scan_digits_end(s@, pos as int),
        pos <= r <= s@.len(),
{
    let mut i: usize = pos;
    loop
        invariant
            pos <= i <= s@.len(),
            scan_digits_end(s@, pos as int) == scan_digits_end(s@, i as int),
        ensures
            pos <= i <= s@.len(),
            scan_digits_end(s@, pos as int) == i as int,
        decreases s@.len() - i,
    {
        if i == s.len() {
            break;
        }
        if !is_digit_exec(s[i]) {
            break;
        }
        i = i + 1;
    }
    i
}

} // verus!
