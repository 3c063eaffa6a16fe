//! What the CPU and memory panel reads out of sensor tables and system text.

use crate::scan::{
    char_is_digit, decimal_value, digits_end, digits_value, find_digits_end, is_digit,
    lemma_digits_end,
};
use vstd::prelude::*;

verus! {

/// One hardware sensor: its label and, if it has one, its reading in millidegrees
/// Celsius.
pub struct SensorReading {
    pub label: String,
    pub millidegrees: Option<i64>,
}

/// Why the package temperature could not be read.
pub enum SensorError {
    /// No sensor carries the expected label.
    LabelNotFound,
    /// The sensor with that label reports nothing.
    NoReading,
}

/// The position of the first sensor labelled `label`.
pub open spec fn first_labelled(sensors: Seq<SensorReading>, label: Seq<char>) -> Option<int> {
    if exists|i: int| 0 <= i < sensors.len() && #[trigger] sensors[i].label@ == label {
        Some(
            choose|i: int|
                0 <= i < sensors.len() && #[trigger] sensors[i].label@ == label && forall|j: int|
                    0 <= j < i ==> #[trigger] sensors[j].label@ != label,
        )
    } else {
        None
    }
}

/// The reading of the first sensor labelled `label`.
pub fn package_temperature(sensors: &Vec<SensorReading>, label: &String) -> (r: Result<
    i64,
    SensorError,
>)
    ensures
        first_labelled(sensors@, label@) is None <==> r matches Err(SensorError::LabelNotFound),
        first_labelled(sensors@, label@) matches Some(i) ==> match sensors@[i].millidegrees {
            Some(t) => r == Ok::<i64, SensorError>(t),
            None => r matches Err(SensorError::NoReading),
        },
{
    let mut i: usize = 0;
    while i < sensors.len()
        invariant
            i <= sensors.len(),
            forall|j: int| 0 <= j < i ==> #[trigger] sensors@[j].label@ != label@,
        decreases sensors.len() - i,
    {
        if sensors[i].label == *label {
            proof {
                let c = choose|c: int|
                    0 <= c < sensors.len() && #[trigger] sensors@[c].label@ == label@ && forall|
                        j: int,
                    | 0 <= j < c ==> #[trigger] sensors@[j].label@ != label@;
                assert(c == i as int) by {
                    if c > i {
                        assert(sensors@[i as int].label@ == label@);
                    }
                }
            }
            return match sensors[i].millidegrees {
                Some(t) => Ok(t),
                None => Err(SensorError::NoReading),
            };
        }
        i = i + 1;
    }
    Err(SensorError::LabelNotFound)
}

/// `s` with every occurrence of `pattern` taken out, scanning left to right.
pub open spec fn remove_all(s: Seq<char>, pattern: Seq<char>) -> Seq<char>
    decreases s.len(),
{
    if pattern.len() == 0 || s.len() == 0 {
        s
    } else if s.len() >= pattern.len() && s.take(pattern.len() as int) == pattern {
        remove_all(s.skip(pattern.len() as int), pattern)
    } else {
        seq![s[0]] + remove_all(s.skip(1), pattern)
    }
}

/// A CPU brand string without the marks `(R)`, `(TM)` and `!`, removed in that order.
pub open spec fn clean_model(brand: Seq<char>) -> Seq<char> {
    remove_all(remove_all(remove_all(brand, "(R)"@), "(TM)"@), "!"@)
}

pub fn occurs_at(s: &str, i: usize, pattern: &str) -> (r: bool)
    requires
        i <= s@.len(),
    ensures
        r == (s@.len() - i >= pattern@.len() && s@.subrange(i as int, i + pattern@.len())
            == pattern@),
{
    let n = s.unicode_len();
    let m = pattern.unicode_len();
    if n - i < m {
        return false;
    }
    let mut j: usize = 0;
    while j < m
        invariant
            n == s@.len(),
            m == pattern@.len(),
            i + m <= n,
            j <= m,
            forall|t: int| 0 <= t < j ==> s@[i + t] == pattern@[t],
        decreases m - j,
    {
        if s.get_char(i + j) != pattern.get_char(j) {
            assert(s@.subrange(i as int, i + m)[j as int] != pattern@[j as int]);
            return false;
        }
        j = j + 1;
    }
    assert(s@.subrange(i as int, i + m) =~= pattern@);
    true
}

/// `s` with every occurrence of a non-empty `pattern` removed.
pub fn remove_occurrences(s: &str, pattern: &str) -> (r: String)
    requires
        pattern@.len() > 0,
    ensures
        r@ == remove_all(s@, pattern@),
{
    let n = s.unicode_len();
    let m = pattern.unicode_len();
    let mut r = String::new();
    let mut i: usize = 0;
    assert(s@.skip(0) =~= s@);
    assert(r@ + remove_all(s@, pattern@) =~= remove_all(s@, pattern@));
    while i < n
        invariant
            n == s@.len(),
            m == pattern@.len(),
            m > 0,
            i <= n,
            r@ + remove_all(s@.skip(i as int), pattern@) == remove_all(s@, pattern@),
        decreases n - i,
    {
        let ghost rest = s@.skip(i as int);
        if occurs_at(s, i, pattern) {
            assert(rest.take(m as int) =~= s@.subrange(i as int, i + m));
            assert(rest.skip(m as int) =~= s@.skip(i + m));
            i = i + m;
        } else {
            assert(rest.len() < m || rest.take(m as int) != pattern@) by {
                if rest.len() >= m {
                    assert(rest.take(m as int) =~= s@.subrange(i as int, i + m));
                }
            }
            assert(rest.skip(1) =~= s@.skip(i + 1));
            let c = s.substring_char(i, i + 1);
            assert(c@ =~= seq![rest[0]]);
            r.append(c);
            i = i + 1;
        }
    }
    assert(s@.skip(n as int).len() == 0);
    r
}

/// The CPU brand string as the panel shows it.
pub fn clean_cpu_model(brand: &str) -> (r: String)
    ensures
        r@ == clean_model(brand@),
{
    proof {
        reveal_strlit("(R)");
        reveal_strlit("(TM)");
        reveal_strlit("!");
    }
    let a = remove_occurrences(brand, "(R)");
    let b = remove_occurrences(a.as_str(), "(TM)");
    remove_occurrences(b.as_str(), "!")
}


/// A range of CPU numbers, `first-last`, starts at `p`: digits, a dash, and a digit.
pub open spec fn range_at(s: Seq<char>, p: int) -> bool {
    &&& 0 <= p < s.len()
    &&& is_digit(s[p])
    &&& digits_end(s, p) + 1 < s.len()
    &&& s[digits_end(s, p)] == '-'
    &&& is_digit(s[digits_end(s, p) + 1])
}

/// Where the first range of CPU numbers starts.
pub open spec fn first_range(s: Seq<char>) -> Option<int> {
    if exists|p: int| #[trigger] range_at(s, p) {
        Some(choose|p: int| #[trigger] range_at(s, p) && forall|t: int| 0 <= t < p ==> !range_at(s, t))
    } else {
        None
    }
}

/// The first and last CPU numbers of the first range in a CPU list such as
/// `0-15`; `None` when there is no range or a number does not fit in a `u64`.
pub open spec fn cpu_range_of(s: Seq<char>) -> Option<(u64, u64)> {
    match first_range(s) {
        None => None,
        Some(p) => {
            let q = digits_end(s, p);
            let e = digits_end(s, q + 1);
            let a = decimal_value(s.subrange(p, q));
            let b = decimal_value(s.subrange(q + 1, e));
            if a <= u64::MAX && b <= u64::MAX {
                Some((a as u64, b as u64))
            } else {
                None
            }
        },
    }
}

/// Reads the range of performance cores out of the kernel's CPU list.
pub fn parse_cpu_range(contents: &str) -> (r: Option<(u64, u64)>)
    ensures
        r == cpu_range_of(contents@),
{
    let ghost s = contents@;
    let n = contents.unicode_len();
    let mut p: usize = 0;
    while p < n
        invariant
            n == s.len(),
            s == contents@,
            p <= n,
            forall|t: int| 0 <= t < p ==> !#[trigger] range_at(s, t),
        decreases n - p,
    {
        if char_is_digit(contents.get_char(p)) {
            let q = find_digits_end(contents, p);
            proof {
                lemma_digits_end(s, p as int);
            }
            if q < n && q + 1 < n && contents.get_char(q) == '-' && char_is_digit(contents.get_char(q + 1)) {
                proof {
                    assert(range_at(s, p as int));
                    let c = choose|c: int| #[trigger]
                        range_at(s, c) && forall|t: int| 0 <= t < c ==> !range_at(s, t);
                    assert(c == p as int) by {
                        if c > p {
                            assert(!range_at(s, p as int));
                        }
                    }
                    lemma_digits_end(s, q + 1);
                }
                let e = find_digits_end(contents, q + 1);
                let a = digits_value(contents, p, q);
                let b = digits_value(contents, q + 1, e);
                return match (a, b) {
                    (Some(a), Some(b)) => Some((a, b)),
                    _ => None,
                };
            }
        }
        p = p + 1;
    }
    None
}

/// A memory frequency, digits then ` MHz`, starts at `p`.
pub open spec fn mhz_at(s: Seq<char>, p: int) -> bool {
    &&& 0 <= p < s.len()
    &&& is_digit(s[p])
    &&& digits_end(s, p) + 4 <= s.len()
    &&& s.subrange(digits_end(s, p), digits_end(s, p) + 4) == " MHz"@
}

/// The first memory frequency, such as `3200 MHz`, in a hardware listing.
pub open spec fn memory_frequency_of(s: Seq<char>) -> Option<Seq<char>> {
    if exists|p: int| #[trigger] mhz_at(s, p) {
        let p = choose|p: int| #[trigger] mhz_at(s, p) && forall|t: int| 0 <= t < p ==> !mhz_at(s, t);
        Some(s.subrange(p, digits_end(s, p) + 4))
    } else {
        None
    }
}

/// Finds the first memory frequency in a hardware listing.
pub fn memory_frequency(listing: &str) -> (r: Option<String>)
    ensures
        r is Some <==> memory_frequency_of(listing@) is Some,
        r matches Some(t) ==> t@ == memory_frequency_of(listing@)->Some_0,
{
    proof {
        reveal_strlit(" MHz");
    }
    let ghost s = listing@;
    let n = listing.unicode_len();
    let mut p: usize = 0;
    while p < n
        invariant
            n == s.len(),
            s == listing@,
            p <= n,
            forall|t: int| 0 <= t < p ==> !#[trigger] mhz_at(s, t),
        decreases n - p,
    {
        if char_is_digit(listing.get_char(p)) {
            let q = find_digits_end(listing, p);
            proof {
                lemma_digits_end(s, p as int);
            }
            if occurs_at(listing, q, " MHz") {
                proof {
                    reveal_strlit(" MHz");
                    assert(mhz_at(s, p as int));
                    let c = choose|c: int| #[trigger]
                        mhz_at(s, c) && forall|t: int| 0 <= t < c ==> !mhz_at(s, t);
                    assert(c == p as int) by {
                        if c > p {
                            assert(!mhz_at(s, p as int));
                        }
                    }
                }
                return Some(String::from_str(listing.substring_char(p, q + 4)));
            }
        }
        p = p + 1;
    }
    None
}

} // verus!
