//! What the disk panel reads out of device properties, sensor files and the list of
//! mounted file systems.

use crate::cpu::occurs_at;
use crate::scan::{decimal_value, digits_value, find_digits_end, is_digit, lemma_digits_end};
use vstd::prelude::*;

verus! {

/// Where the line that holds position `i` ends: at the next newline or the end.
pub open spec fn line_end(s: Seq<char>, i: int) -> int
    decreases s.len() - i,
{
    if i < 0 || i >= s.len() || s[i] == '\n' {
        i
    } else {
        line_end(s, i + 1)
    }
}

/// The end of a line's text: a carriage return before its newline is not part of it.
pub open spec fn text_end(s: Seq<char>, i: int) -> int {
    let e = line_end(s, i);
    if e < s.len() && e > i && s[e - 1] == '\r' {
        e - 1
    } else {
        e
    }
}

proof fn lemma_line_end(s: Seq<char>, i: int)
    requires
        0 <= i <= s.len(),
    ensures
        i <= line_end(s, i) <= s.len(),
        forall|t: int| i <= t < line_end(s, i) ==> #[trigger] s[t] != '\n',
        line_end(s, i) < s.len() ==> s[line_end(s, i)] == '\n',
    decreases s.len() - i,
{
    if i < s.len() && s[i] != '\n' {
        lemma_line_end(s, i + 1);
    }
}

fn find_text_end(s: &str, i: usize) -> (r: usize)
    requires
        i <= s@.len(),
    ensures
        r as int == text_end(s@, i as int),
        i <= r <= s@.len(),
{
    proof {
        lemma_line_end(s@, i as int);
    }
    let n = s.unicode_len();
    let mut j: usize = i;
    while j < n && s.get_char(j) != '\n'
        invariant
            n == s@.len(),
            i <= j <= n,
            line_end(s@, j as int) == line_end(s@, i as int),
        decreases n - j,
    {
        j = j + 1;
    }
    if j < n && j > i && s.get_char(j - 1) == '\r' {
        j - 1
    } else {
        j
    }
}

/// A line `ID_MODEL=<model>` with a non-empty model starts at `p`.
pub open spec fn model_at(s: Seq<char>, p: int) -> bool {
    &&& 0 <= p
    &&& p == 0 || (p <= s.len() && s[p - 1] == '\n')
    &&& p + 9 <= s.len()
    &&& s.subrange(p, p + 9) == "ID_MODEL="@
    &&& text_end(s, p + 9) > p + 9
}

/// `s` with each underscore turned into a space.
pub open spec fn underscores_to_spaces(s: Seq<char>) -> Seq<char> {
    Seq::new(s.len(), |i: int| if s[i] == '_' { ' ' } else { s[i] })
}

/// The device model that a property listing names on its first `ID_MODEL=` line,
/// with underscores shown as spaces.
pub open spec fn model_of(s: Seq<char>) -> Option<Seq<char>> {
    if exists|p: int| #[trigger] model_at(s, p) {
        let p = choose|p: int| #[trigger] model_at(s, p) && forall|t: int| 0 <= t < p ==> !model_at(s, t);
        Some(underscores_to_spaces(s.subrange(p + 9, text_end(s, p + 9))))
    } else {
        None
    }
}

fn spaced_copy(s: &str, from: usize, to: usize) -> (r: String)
    requires
        from <= to <= s@.len(),
    ensures
        r@ == underscores_to_spaces(s@.subrange(from as int, to as int)),
{
    let mut r = String::new();
    let mut i: usize = from;
    while i < to
        invariant
            from <= i <= to <= s@.len(),
            r@ == underscores_to_spaces(s@.subrange(from as int, i as int)),
        decreases to - i,
    {
        if s.get_char(i) == '_' {
            proof {
                reveal_strlit(" ");
            }
            r.append(" ");
        } else {
            r.append(s.substring_char(i, i + 1));
        }
        i = i + 1;
        assert(r@ =~= underscores_to_spaces(s@.subrange(from as int, i as int)));
    }
    r
}

/// The model of a device, out of its property listing; where the listing names
/// none, an error that names the device path.
pub fn disk_model(properties: &str, device_path: &str) -> (r: Result<String, String>)
    ensures
        r is Ok <==> model_of(properties@) is Some,
        r matches Ok(m) ==> m@ == model_of(properties@)->Some_0,
        r matches Err(e) ==> e@ == "Specified device path "@ + device_path@ + " does not exist"@,
{
    let ghost s = properties@;
    let n = properties.unicode_len();
    let mut p: usize = 0;
    while p < n
        invariant
            n == s.len(),
            s == properties@,
            p <= n,
            forall|t: int| 0 <= t < p ==> !#[trigger] model_at(s, t),
        decreases n - p,
    {
        if (p == 0 || properties.get_char(p - 1) == '\n') && occurs_at(properties, p, "ID_MODEL=") {
            proof {
                reveal_strlit("ID_MODEL=");
            }
            let e = find_text_end(properties, p + 9);
            if e > p + 9 {
                proof {
                    assert(model_at(s, p as int));
                    let c = choose|c: int| #[trigger]
                        model_at(s, c) && forall|t: int| 0 <= t < c ==> !model_at(s, t);
                    assert(c == p as int) by {
                        if c > p {
                            assert(!model_at(s, p as int));
                        }
                    }
                }
                return Ok(spaced_copy(properties, p + 9, e));
            }
            proof {
                assert(!model_at(s, p as int));
            }
        }
        p = p + 1;
    }
    proof {
        assert forall|t: int| !#[trigger] model_at(s, t) by {
            if t >= n {
                assert(t + 9 > s.len());
            }
        }
    }
    let mut e = String::from_str("Specified device path ");
    e.append(device_path);
    e.append(" does not exist");
    Err(e)
}

/// The length of the sign that `t` starts with: one for `-` or `+`, else zero.
pub open spec fn sign_len(t: Seq<char>) -> int {
    if t.len() > 0 && (t[0] == '-' || t[0] == '+') {
        1
    } else {
        0
    }
}

pub open spec fn all_digits(d: Seq<char>) -> bool {
    forall|i: int| 0 <= i < d.len() ==> is_digit(#[trigger] d[i])
}

/// The integer that `t` writes: an optional sign, then at least one digit and
/// nothing else.
pub open spec fn integer_of(t: Seq<char>) -> Option<int> {
    let digits = t.skip(sign_len(t));
    if digits.len() > 0 && all_digits(digits) {
        if t[0] == '-' {
            Some(-decimal_value(digits))
        } else {
            Some(decimal_value(digits) as int)
        }
    } else {
        None
    }
}

/// The reading of a temperature sensor file: the first line as an `i32`, in
/// millidegrees Celsius.
pub open spec fn millidegrees_of(s: Seq<char>) -> Option<i32> {
    match integer_of(s.subrange(0, text_end(s, 0))) {
        Some(v) => if i32::MIN <= v <= i32::MAX {
            Some(v as i32)
        } else {
            None
        },
        None => None,
    }
}

/// Reads a temperature sensor file; `None` where its first line is not an `i32`.
pub fn parse_millidegrees(contents: &str) -> (r: Option<i32>)
    ensures
        r == millidegrees_of(contents@),
{
    let ghost s = contents@;
    let end = find_text_end(contents, 0);
    let ghost line = s.subrange(0, end as int);
    if end == 0 {
        return None;
    }
    let first = contents.get_char(0);
    let start: usize = if first == '-' || first == '+' {
        1
    } else {
        0
    };
    let ghost digits = line.skip(start as int);
    let stop = find_digits_end(contents, start);
    proof {
        lemma_digits_end(s, start as int);
    }
    proof {
        lemma_line_end(s, 0);
        if end < s.len() {
            assert(s[end as int] == '\n' || s[end as int] == '\r');
            assert(!is_digit(s[end as int]));
        }
        if stop > end {
            assert(is_digit(s[end as int]));
        }
        assert(stop <= end);
        assert(line[0] == s[0]);
        assert(line.len() > 0 && (line[0] == '-' || line[0] == '+') <==> start == 1);
        assert(sign_len(line) == start);
    }
    if stop != end || stop == start {
        proof {
            if stop == start {
                if start < end {
                    assert(digits[0] == s[start as int]);
                    assert(!is_digit(digits[0]));
                } else {
                    assert(digits.len() == 0);
                }
            } else {
                assert(digits[stop - start] == s[stop as int]);
                assert(!is_digit(digits[stop - start]));
            }
            assert(integer_of(line) is None);
        }
        return None;
    }
    proof {
        assert(digits =~= s.subrange(start as int, stop as int));
    }
    match digits_value(contents, start, stop) {
        None => None,
        Some(v) => {
            if first == '-' {
                if v <= 2147483648 {
                    Some((0 - v as i64) as i32)
                } else {
                    None
                }
            } else if v <= 2147483647 {
                Some(v as i32)
            } else {
                None
            }
        },
    }
}

/// Space on one mounted file system, in bytes.
pub struct DiskSpace {
    pub mount_point: String,
    pub total_space: u64,
    pub available_space: u64,
}

impl DiskSpace {
    /// The space in use; none where the file system reports more available than it
    /// holds.
    pub fn used_space(&self) -> (r: u64)
        ensures
            self.available_space <= self.total_space ==> r == self.total_space
                - self.available_space,
            self.available_space > self.total_space ==> r == 0,
    {
        if self.available_space <= self.total_space {
            self.total_space - self.available_space
        } else {
            0
        }
    }
}

/// The position of the first file system mounted at `mount_point`.
pub open spec fn first_mounted(disks: Seq<DiskSpace>, mount_point: Seq<char>) -> Option<int> {
    if exists|i: int| 0 <= i < disks.len() && #[trigger] disks[i].mount_point@ == mount_point {
        Some(
            choose|i: int|
                0 <= i < disks.len() && #[trigger] disks[i].mount_point@ == mount_point && forall|
                    j: int,
                | 0 <= j < i ==> #[trigger] disks[j].mount_point@ != mount_point,
        )
    } else {
        None
    }
}

/// The first file system mounted at `mount_point`.
pub fn find_disk(disks: &Vec<DiskSpace>, mount_point: &String) -> (r: Option<usize>)
    ensures
        r matches Some(i) ==> i < disks.len() && first_mounted(disks@, mount_point@) == Some(
            i as int,
        ),
        r is None ==> first_mounted(disks@, mount_point@) is None,
{
    let mut i: usize = 0;
    while i < disks.len()
        invariant
            i <= disks.len(),
            forall|j: int| 0 <= j < i ==> #[trigger] disks@[j].mount_point@ != mount_point@,
        decreases disks.len() - i,
    {
        if disks[i].mount_point == *mount_point {
            proof {
                let c = choose|c: int|
                    0 <= c < disks.len() && #[trigger] disks@[c].mount_point@ == mount_point@
                        && forall|j: int|
                        0 <= j < c ==> #[trigger] disks@[j].mount_point@ != mount_point@;
                assert(c == i as int) by {
                    if c > i {
                        assert(disks@[i as int].mount_point@ == mount_point@);
                    }
                }
            }
            return Some(i);
        }
        i = i + 1;
    }
    None
}

} // verus!
