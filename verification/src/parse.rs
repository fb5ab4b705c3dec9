use vstd::prelude::*;

use crate::error::NeverError;

verus! {

/// The universal "parse from text" capability that item types supply.
///
/// `accepts` says which texts parse at all and `is_value_of` which values a
/// text may parse to; `parse_text` is the executable parser, proved to agree
/// with both.
pub trait FromOutput: Sized {
    /// The type's own parse error.
    type Fail;

    /// Which texts this type accepts.
    spec fn accepts(text: Seq<char>) -> bool;

    /// Which value an accepted text denotes.
    spec fn is_value_of(text: Seq<char>, v: Self) -> bool;

    fn parse_text(text: &str) -> (r: Result<Self, Self::Fail>)
        ensures
            r is Ok <==> Self::accepts(text@),
            r matches Ok(v) ==> Self::is_value_of(text@, v),
    ;
}

/// The parse error of the built-in integer item types.
#[derive(Clone, Copy, Debug, PartialEq, Eq, Structural)]
pub struct IntParseFailure;

pub open spec fn is_digit_char(c: char) -> bool {
    48 <= c as u32 && c as u32 <= 57
}

pub open spec fn digit_of(c: char) -> int {
    c as u32 - 48
}

pub open spec fn all_digits(s: Seq<char>) -> bool {
    forall|i: int| 0 <= i < s.len() ==> is_digit_char(#[trigger] s[i])
}

/// The number denoted by a sequence of decimal digit characters.
pub open spec fn digits_value(s: Seq<char>) -> int
    decreases s.len(),
{
    if s.len() == 0 {
        0
    } else {
        digits_value(s.drop_last()) * 10 + digit_of(s.last())
    }
}

/// The texts accepted as a decimal number no larger than `bound`: at least
/// one character, digits only, value within the bound.
pub open spec fn decimal_accepts(s: Seq<char>, bound: int) -> bool {
    s.len() > 0 && all_digits(s) && digits_value(s) <= bound
}

proof fn lemma_digits_value_nonneg(s: Seq<char>)
    requires
        all_digits(s),
    ensures
        digits_value(s) >= 0,
    decreases s.len(),
{
    if s.len() > 0 {
        assert(all_digits(s.drop_last()));
        lemma_digits_value_nonneg(s.drop_last());
    }
}

/// Appending digits never shrinks the denoted value.
proof fn lemma_digits_value_monotonic(s: Seq<char>, i: int)
    requires
        all_digits(s),
        0 <= i <= s.len(),
    ensures
        digits_value(s.take(i)) <= digits_value(s),
    decreases s.len() - i,
{
    if i < s.len() {
        let t = s.take(i + 1);
        assert(t.drop_last() =~= s.take(i));
        assert(all_digits(t));
        assert(all_digits(s.take(i)));
        lemma_digits_value_nonneg(s.take(i));
        assert(digits_value(t) == digits_value(s.take(i)) * 10 + digit_of(t.last()));
        assert(digits_value(s.take(i)) <= digits_value(s.take(i)) * 10 + digit_of(t.last()));
        lemma_digits_value_monotonic(s, i + 1);
    } else {
        assert(s.take(i) =~= s);
    }
}

/// Parses a decimal `u32`: digits only, no sign, no surrounding spaces;
/// fails on empty text, on any non-digit character, and on overflow.
pub fn parse_u32_text(text: &str) -> (r: Result<u32, IntParseFailure>)
    ensures
        r is Ok <==> decimal_accepts(text@, u32::MAX as int),
        r matches Ok(v) ==> v == digits_value(text@),
{
    let n = text.unicode_len();
    if n == 0 {
        return Err(IntParseFailure);
    }
    let mut acc: u32 = 0;
    let mut i: usize = 0;
    while i < n
        invariant
            0 < n == text@.len(),
            0 <= i <= n,
            all_digits(text@.take(i as int)),
            acc == digits_value(text@.take(i as int)),
        decreases n - i,
    {
        let u = text.get_char(i) as u32;
        if u < 48 || u > 57 {
            assert(!is_digit_char(text@[i as int]));
            return Err(IntParseFailure);
        }
        let d: u32 = u - 48;
        proof {
            assert(text@.take(i + 1).drop_last() =~= text@.take(i as int));
            assert(all_digits(text@.take(i + 1)));
            assert(digits_value(text@.take(i + 1)) == acc * 10 + d);
        }
        if acc > (u32::MAX - d) / 10 {
            proof {
                assert(acc * 10 + d > u32::MAX) by (nonlinear_arith)
                    requires
                        acc > (u32::MAX - d) / 10,
                        d <= 9,
                ;
                if all_digits(text@) {
                    lemma_digits_value_monotonic(text@, i + 1);
                }
            }
            return Err(IntParseFailure);
        }
        acc = acc * 10 + d;
        i = i + 1;
    }
    proof {
        assert(text@.take(n as int) =~= text@);
    }
    Ok(acc)
}

impl FromOutput for u32 {
    type Fail = IntParseFailure;

    open spec fn accepts(text: Seq<char>) -> bool {
        decimal_accepts(text, u32::MAX as int)
    }

    open spec fn is_value_of(text: Seq<char>, v: Self) -> bool {
        v == digits_value(text)
    }

    fn parse_text(text: &str) -> (r: Result<Self, Self::Fail>) {
        parse_u32_text(text)
    }
}

impl FromOutput for String {
    type Fail = NeverError;

    open spec fn accepts(text: Seq<char>) -> bool {
        true
    }

    open spec fn is_value_of(text: Seq<char>, v: Self) -> bool {
        v@ == text
    }

    fn parse_text(text: &str) -> (r: Result<Self, Self::Fail>) {
        Ok(text.to_owned())
    }
}

} // verus!
