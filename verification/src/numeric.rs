//! Exact arbitrary-precision decimal values.
//!
//! A `Numeric` stores the sign and the decimal digits of a number exactly —
//! never as binary floating point. The representation is canonical: no
//! leading zeros before the decimal point (beyond a single `0`), no trailing
//! zeros after it, and no negative zero. Two `Numeric` values are therefore
//! structurally equal exactly when they denote the same number.

use vstd::prelude::*;
use crate::grammar::is_digit_char;
use crate::chars::push_all;
use crate::chars::sub_vec;

verus! {

/// Mathematical model of a `Numeric`: the sign and the canonical digit
/// sequences on either side of the decimal point.
#[verifier::ext_equal]
pub struct NumericV {
    pub negative: bool,
    pub int_digits: Seq<char>,
    pub frac_digits: Seq<char>,
}

/// The canonical digit sequences denoting zero.
pub open spec fn numeric_zero_digits(int_digits: Seq<char>, frac_digits: Seq<char>) -> bool {
    int_digits == seq!['0'] && frac_digits.len() == 0
}

/// Well-formedness of the canonical representation.
pub open spec fn numeric_wf(n: NumericV) -> bool {
    &&& n.int_digits.len() > 0
    &&& (forall|i: int| 0 <= i < n.int_digits.len() ==> is_digit_char(#[trigger] n.int_digits[i]))
    &&& (n.int_digits.len() > 1 ==> n.int_digits[0] != '0')
    &&& (forall|i: int| 0 <= i < n.frac_digits.len() ==> is_digit_char(#[trigger] n.frac_digits[i]))
    &&& (n.frac_digits.len() > 0 ==> n.frac_digits[n.frac_digits.len() - 1] != '0')
    &&& (n.negative ==> !numeric_zero_digits(n.int_digits, n.frac_digits))
}

/// Drops leading `0` characters, keeping at least one character.
pub open spec fn strip_leading_zeros(s: Seq<char>) -> Seq<char>
    decreases s.len(),
{
    if s.len() > 1 && s[0] == '0' {
        strip_leading_zeros(s.subrange(1, s.len() as int))
    } else {
        s
    }
}

/// Drops trailing `0` characters, possibly leaving nothing.
pub open spec fn strip_trailing_zeros(s: Seq<char>) -> Seq<char>
    decreases s.len(),
{
    if s.len() > 0 && s[s.len() - 1] == '0' {
        strip_trailing_zeros(s.subrange(0, s.len() - 1))
    } else {
        s
    }
}

/// The canonical value denoted by a sign and raw digit runs, exactly as the
/// number grammar produces them.
pub open spec fn canon_numeric(negative: bool, int_digits: Seq<char>, frac_digits: Seq<char>) -> NumericV {
    let id = strip_leading_zeros(int_digits);
    let fd = strip_trailing_zeros(frac_digits);
    NumericV {
        negative: negative && !numeric_zero_digits(id, fd),
        int_digits: id,
        frac_digits: fd,
    }
}

/// The textual form of a value: sign, integer digits, then `.` and the
/// fraction digits when there are any.
pub open spec fn numeric_chars(n: NumericV) -> Seq<char> {
    let sign = if n.negative {
        seq!['-']
    } else {
        Seq::<char>::empty()
    };
    let frac = if n.frac_digits.len() > 0 {
        seq!['.'] + n.frac_digits
    } else {
        Seq::<char>::empty()
    };
    sign + n.int_digits + frac
}

pub proof fn lemma_strip_leading_zeros_wf(s: Seq<char>)
    requires
        s.len() > 0,
        forall|i: int| 0 <= i < s.len() ==> is_digit_char(#[trigger] s[i]),
    ensures
        strip_leading_zeros(s).len() > 0,
        forall|i: int|
            0 <= i < strip_leading_zeros(s).len() ==> is_digit_char(
                #[trigger] strip_leading_zeros(s)[i],
            ),
        strip_leading_zeros(s).len() > 1 ==> strip_leading_zeros(s)[0] != '0',
    decreases s.len(),
{
    if s.len() > 1 && s[0] == '0' {
        lemma_strip_leading_zeros_wf(s.subrange(1, s.len() as int));
    }
}

pub proof fn lemma_strip_trailing_zeros_wf(s: Seq<char>)
    requires
        forall|i: int| 0 <= i < s.len() ==> is_digit_char(#[trigger] s[i]),
    ensures
        forall|i: int|
            0 <= i < strip_trailing_zeros(s).len() ==> is_digit_char(
                #[trigger] strip_trailing_zeros(s)[i],
            ),
        strip_trailing_zeros(s).len() > 0 ==> strip_trailing_zeros(s)[strip_trailing_zeros(
            s,
        ).len() - 1] != '0',
    decreases s.len(),
{
    if s.len() > 0 && s[s.len() - 1] == '0' {
        lemma_strip_trailing_zeros_wf(s.subrange(0, s.len() - 1));
    }
}

/// Canonicalizing raw digit runs yields a well-formed value.
pub proof fn lemma_canon_wf(negative: bool, int_digits: Seq<char>, frac_digits: Seq<char>)
    requires
        int_digits.len() > 0,
        forall|i: int| 0 <= i < int_digits.len() ==> is_digit_char(#[trigger] int_digits[i]),
        forall|i: int| 0 <= i < frac_digits.len() ==> is_digit_char(#[trigger] frac_digits[i]),
    ensures
        numeric_wf(canon_numeric(negative, int_digits, frac_digits)),
{
    lemma_strip_leading_zeros_wf(int_digits);
    lemma_strip_trailing_zeros_wf(frac_digits);
}

/// A well-formed value is untouched by canonicalization.
pub proof fn lemma_canon_of_wf(n: NumericV)
    requires
        numeric_wf(n),
    ensures
        canon_numeric(n.negative, n.int_digits, n.frac_digits) == n,
{
    assert(strip_leading_zeros(n.int_digits) == n.int_digits);
    assert(strip_trailing_zeros(n.frac_digits) == n.frac_digits);
    assert(canon_numeric(n.negative, n.int_digits, n.frac_digits) =~= n);
}

// ---------------------------------------------------------------------------
// Decimal digits of a machine integer
// ---------------------------------------------------------------------------
/// The character for one decimal digit.
pub open spec fn digit_char(d: int) -> char {
    if d == 0 {
        '0'
    } else if d == 1 {
        '1'
    } else if d == 2 {
        '2'
    } else if d == 3 {
        '3'
    } else if d == 4 {
        '4'
    } else if d == 5 {
        '5'
    } else if d == 6 {
        '6'
    } else if d == 7 {
        '7'
    } else if d == 8 {
        '8'
    } else {
        '9'
    }
}

/// The decimal digit characters of a non-negative integer, most significant
/// first.
pub open spec fn digits_of(n: int) -> Seq<char>
    decreases n,
{
    if n < 10 {
        seq![digit_char(n)]
    } else {
        digits_of(n / 10).push(digit_char(n % 10))
    }
}

pub proof fn lemma_digits_of_wf(n: int)
    requires
        n >= 0,
    ensures
        digits_of(n).len() > 0,
        forall|i: int| 0 <= i < digits_of(n).len() ==> is_digit_char(#[trigger] digits_of(n)[i]),
        n >= 1 ==> digits_of(n)[0] != '0',
    decreases n,
{
    if n >= 10 {
        lemma_digits_of_wf(n / 10);
    }
}

// ---------------------------------------------------------------------------
// The executable type
// ---------------------------------------------------------------------------
/// A numeric literal: optional sign, digits, then optionally `.` followed by
/// any number of decimal digits, held exactly in canonical decimal form.
#[derive(Clone, Debug, PartialEq)]
pub struct Numeric {
    negative: bool,
    int_digits: Vec<char>,
    frac_digits: Vec<char>,
}

impl Numeric {
    pub closed spec fn view(&self) -> NumericV {
        NumericV {
            negative: self.negative,
            int_digits: self.int_digits@,
            frac_digits: self.frac_digits@,
        }
    }

    /// Builds the canonical value of raw digit runs taken from the grammar.
    pub(crate) fn from_parts(negative: bool, int_digits: Vec<char>, frac_digits: Vec<char>) -> (r:
        Numeric)
        requires
            int_digits@.len() > 0,
            forall|i: int| 0 <= i < int_digits@.len() ==> is_digit_char(#[trigger] int_digits@[i]),
            forall|i: int|
                0 <= i < frac_digits@.len() ==> is_digit_char(#[trigger] frac_digits@[i]),
        ensures
            r.view() == canon_numeric(negative, int_digits@, frac_digits@),
            numeric_wf(r.view()),
    {
        proof {
            lemma_canon_wf(negative, int_digits@, frac_digits@);
        }
        let ghost id0 = int_digits@;
        let ghost fd0 = frac_digits@;
        let id = strip_leading_zeros_exec(int_digits);
        let fd = strip_trailing_zeros_exec(frac_digits);
        let zero = id.len() == 1 && id[0] == '0' && fd.len() == 0;
        proof {
            if id@.len() == 1 && id@[0] == '0' {
                assert(id@ =~= seq!['0']);
            }
            assert(zero == numeric_zero_digits(id@, fd@));
        }
        let r = Numeric { negative: negative && !zero, int_digits: id, frac_digits: fd };
        proof {
            assert(r.view() =~= canon_numeric(negative, id0, fd0));
        }
        r
    }

    /// The exact value of a machine integer.
    pub fn from_i64(v: i64) -> (r: Numeric)
        ensures
            r.view() == (NumericV {
                negative: v < 0,
                int_digits: digits_of(if v >= 0 {
                    v as int
                } else {
                    -(v as int)
                }),
                frac_digits: Seq::<char>::empty(),
            }),
            numeric_wf(r.view()),
    {
        let m: u64 = if v >= 0 {
            v as u64
        } else if v == i64::MIN {
            9223372036854775808u64
        } else {
            (-v) as u64
        };
        let mut ds: Vec<char> = Vec::new();
        push_digits(m, &mut ds);
        proof {
            lemma_digits_of_wf(m as int);
        }
        let r = Numeric { negative: v < 0, int_digits: ds, frac_digits: Vec::new() };
        proof {
            assert(r.view() =~= (NumericV {
                negative: v < 0,
                int_digits: digits_of(m as int),
                frac_digits: Seq::<char>::empty(),
            }));
        }
        r
    }

    /// The textual form of the value, as characters.
    pub fn to_chars(&self) -> (r: Vec<char>)
        ensures
            r@ == numeric_chars(self.view()),
    {
        let mut r: Vec<char> = Vec::new();
        if self.negative {
            r.push('-');
        }
        push_all(&mut r, &self.int_digits);
        if self.frac_digits.len() > 0 {
            r.push('.');
            push_all(&mut r, &self.frac_digits);
        }
        proof {
            assert(r@ =~= numeric_chars(self.view()));
        }
        r
    }
}

fn digit_char_exec(d: u64) -> (r: char)
    requires
        d < 10,
    ensures
        r == digit_char(d as int),
{
    if d == 0 {
        '0'
    } else if d == 1 {
        '1'
    } else if d == 2 {
        '2'
    } else if d == 3 {
        '3'
    } else if d == 4 {
        '4'
    } else if d == 5 {
        '5'
    } else if d == 6 {
        '6'
    } else if d == 7 {
        '7'
    } else if d == 8 {
        '8'
    } else {
        '9'
    }
}

fn push_digits(n: u64, v: &mut Vec<char>)
    ensures
        final(v)@ == old(v)@ + digits_of(n as int),
    decreases n,
{
    if n < 10 {
        v.push(digit_char_exec(n));
        proof {
            assert(v@ =~= old(v)@ + digits_of(n as int));
        }
    } else {
        push_digits(n / 10, v);
        v.push(digit_char_exec(n % 10));
        proof {
            assert(v@ =~= old(v)@ + digits_of(n as int));
        }
    }
}

pub(crate) fn strip_leading_zeros_exec(v: Vec<char>) -> (r: Vec<char>)
    ensures
        r@ == strip_leading_zeros(v@),
{
    let mut a: usize = 0;
    proof {
        assert(v@.subrange(0, v@.len() as int) =~= v@);
    }
    loop
        invariant
            a <= v@.len(),
            strip_leading_zeros(v@) == strip_leading_zeros(v@.subrange(a as int, v@.len() as int)),
        ensures
            a <= v@.len(),
            strip_leading_zeros(v@) == v@.subrange(a as int, v@.len() as int),
        decreases v@.len() - a,
    {
        if v.len() - a <= 1 {
            proof {
                let t = v@.subrange(a as int, v@.len() as int);
                assert(!(t.len() > 1));
            }
            break;
        }
        if v[a] != '0' {
            proof {
                let t = v@.subrange(a as int, v@.len() as int);
                assert(t[0] == v@[a as int]);
            }
            break;
        }
        proof {
            let t = v@.subrange(a as int, v@.len() as int);
            assert(t.len() > 1 && t[0] == '0');
            assert(t.subrange(1, t.len() as int) =~= v@.subrange(a + 1, v@.len() as int));
        }
        a = a + 1;
    }
    sub_vec(&v, a, v.len())
}

pub(crate) fn strip_trailing_zeros_exec(v: Vec<char>) -> (r: Vec<char>)
    ensures
        r@ == strip_trailing_zeros(v@),
{
    let ghost v0 = v@;
    let mut r = v;
    loop
        invariant
            strip_trailing_zeros(v0) == strip_trailing_zeros(r@),
        ensures
            strip_trailing_zeros(v0) == r@,
        decreases r@.len(),
    {
        if r.len() == 0 {
            break;
        }
        if r[r.len() - 1] != '0' {
            break;
        }
        proof {
            assert(r@.subrange(0, r@.len() - 1) =~= r@.drop_last());
        }
        r.pop();
    }
    r
}

} // verus!
