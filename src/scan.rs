//! Reading numbers out of system text.

use vstd::prelude::*;

verus! {

pub open spec fn is_digit(c: char) -> bool {
    '0' <= c && c <= '9'
}

pub open spec fn digit_value(c: char) -> nat {
    (c as u32 - '0' as u32) as nat
}

/// The end of the run of digits that starts at `i`.
pub open spec fn digits_end(s: Seq<char>, i: int) -> int
    decreases s.len() - i,
{
    if i < 0 || i >= s.len() || !is_digit(s[i]) {
        i
    } else {
        digits_end(s, i + 1)
    }
}

/// The number that a run of decimal digits writes.
pub open spec fn decimal_value(digits: Seq<char>) -> nat
    decreases digits.len(),
{
    if digits.len() == 0 {
        0
    } else {
        10 * decimal_value(digits.drop_last()) + digit_value(digits.last())
    }
}

pub proof fn lemma_digits_end(s: Seq<char>, i: int)
    requires
        0 <= i <= s.len(),
    ensures
        i <= digits_end(s, i) <= s.len(),
        forall|t: int| i <= t < digits_end(s, i) ==> is_digit(#[trigger] s[t]),
        digits_end(s, i) < s.len() ==> !is_digit(s[digits_end(s, i)]),
    decreases s.len() - i,
{
    if i < s.len() && is_digit(s[i]) {
        lemma_digits_end(s, i + 1);
    }
}

pub fn char_is_digit(c: char) -> (r: bool)
    ensures
        r == is_digit(c),
{
    '0' <= c && c <= '9'
}

/// Where the run of digits that starts at `i` ends.
pub fn find_digits_end(s: &str, i: usize) -> (r: usize)
    requires
        i <= s@.len(),
    ensures
        r as int == digits_end(s@, i as int),
{
    proof {
        lemma_digits_end(s@, i as int);
    }
    let n = s.unicode_len();
    let mut j: usize = i;
    while j < n && char_is_digit(s.get_char(j))
        invariant
            n == s@.len(),
            i <= j <= n,
            digits_end(s@, j as int) == digits_end(s@, i as int),
        decreases n - j,
    {
        j = j + 1;
    }
    j
}

/// The number written by the digits of `s` from `from` up to `to`, or `None` where it
/// does not fit in a `u64`.
pub fn digits_value(s: &str, from: usize, to: usize) -> (r: Option<u64>)
    requires
        from <= to <= s@.len(),
        forall|t: int| from <= t < to ==> is_digit(#[trigger] s@[t]),
    ensures
        r is Some <==> decimal_value(s@.subrange(from as int, to as int)) <= u64::MAX,
        r matches Some(v) ==> v == decimal_value(s@.subrange(from as int, to as int)),
{
    let mut v: u64 = 0;
    let mut i: usize = from;
    while i < to
        invariant
            from <= i <= to <= s@.len(),
            forall|t: int| from <= t < to ==> is_digit(#[trigger] s@[t]),
            v == decimal_value(s@.subrange(from as int, i as int)),
        decreases to - i,
    {
        let c = s.get_char(i);
        let d = (c as u32 - '0' as u32) as u64;
        proof {
            assert(s@.subrange(from as int, i + 1).drop_last() =~= s@.subrange(from as int, i as int));
            assert(is_digit(s@[i as int]));
        }
        if v > (u64::MAX - d) / 10 {
            proof {
                lemma_decimal_value_grows(s@.subrange(from as int, to as int), (i + 1 - from) as nat);
                assert(s@.subrange(from as int, to as int).take((i + 1 - from) as int) =~= s@.subrange(
                    from as int,
                    i + 1,
                ));
                assert(10 * v + d > u64::MAX) by (nonlinear_arith)
                    requires
                        v > (u64::MAX - d) / 10,
                        d <= 9,
                ;
            }
            return None;
        }
        v = v * 10 + d;
        i = i + 1;
    }
    Some(v)
}

/// A prefix of a run of digits never writes a larger number than the whole run.
pub proof fn lemma_decimal_value_grows(digits: Seq<char>, k: nat)
    requires
        k <= digits.len(),
    ensures
        decimal_value(digits.take(k as int)) <= decimal_value(digits),
    decreases digits.len() - k,
{
    if k < digits.len() {
        lemma_decimal_value_grows(digits, k + 1);
        assert(digits.take(k as int + 1).drop_last() =~= digits.take(k as int));
    } else {
        assert(digits.take(k as int) =~= digits);
    }
}

} // verus!
