//! Text for the panels: durations, sizes, shares and joined lists.

use crate::sampler::{percent_rounded, percentage};
use vstd::prelude::*;

verus! {

pub open spec fn digit_char(d: int) -> char {
    if d <= 0 {
        '0'
    } else if d == 1 {
        '1'
    } else if d == 2 {
        '2'
    } else if d == 3 {
        '3'
    } else if d == 4 {
        '4'
    } else if d == 5 {
        '5'
    } else if d == 6 {
        '6'
    } else if d == 7 {
        '7'
    } else if d == 8 {
        '8'
    } else {
        '9'
    }
}

/// The decimal digits of `n`, without leading zeros.
pub open spec fn decimal(n: nat) -> Seq<char>
    decreases n,
{
    if n < 10 {
        seq![digit_char(n as int)]
    } else {
        decimal(n / 10).push(digit_char((n % 10) as int))
    }
}

/// `s` preceded by as many `c` as it takes to make it `width` long.
pub open spec fn pad_left(s: Seq<char>, width: nat, c: char) -> Seq<char> {
    if s.len() >= width {
        s
    } else {
        Seq::new((width - s.len()) as nat, |_i: int| c) + s
    }
}

fn digit_str(d: u64) -> (r: &'static str)
    requires
        d < 10,
    ensures
        r@ == seq![digit_char(d as int)],
{
    proof {
        reveal_strlit("0");
        reveal_strlit("1");
        reveal_strlit("2");
        reveal_strlit("3");
        reveal_strlit("4");
        reveal_strlit("5");
        reveal_strlit("6");
        reveal_strlit("7");
        reveal_strlit("8");
        reveal_strlit("9");
    }
    if d == 0 {
        "0"
    } else if d == 1 {
        "1"
    } else if d == 2 {
        "2"
    } else if d == 3 {
        "3"
    } else if d == 4 {
        "4"
    } else if d == 5 {
        "5"
    } else if d == 6 {
        "6"
    } else if d == 7 {
        "7"
    } else if d == 8 {
        "8"
    } else {
        "9"
    }
}

/// `n` in decimal.
pub fn decimal_string(n: u128) -> (r: String)
    ensures
        r@ == decimal(n as nat),
    decreases n,
{
    if n < 10 {
        String::from_str(digit_str(n as u64))
    } else {
        let mut s = decimal_string(n / 10);
        s.append(digit_str((n % 10) as u64));
        s
    }
}

/// `s` preceded by as many `fill` characters as it takes to make it `width` long.
pub fn padded_left(s: &str, width: usize, fill: &str) -> (r: String)
    requires
        fill@.len() == 1,
    ensures
        r@ == pad_left(s@, width as nat, fill@[0]),
{
    let mut r = String::new();
    let len = s.unicode_len();
    let mut i: usize = len;
    while i < width
        invariant
            len == s@.len(),
            len <= i,
            i <= if len < width { width } else { len },
            r@ == Seq::new((i - len) as nat, |_j: int| fill@[0]),
            fill@.len() == 1,
        decreases width - i,
    {
        r.append(fill);
        i = i + 1;
        assert(r@ =~= Seq::new((i - len) as nat, |_j: int| fill@[0]));
    }
    r.append(s);
    proof {
        if s@.len() >= width {
            assert(r@ =~= s@);
        } else {
            assert(i == width);
            assert(r@ =~= pad_left(s@, width as nat, fill@[0]));
        }
    }
    r
}

/// The quotient and remainder of `a` by `b`.
pub fn div_rem(a: u64, b: u64) -> (r: (u64, u64))
    requires
        b != 0,
    ensures
        r.0 == a / b,
        r.1 == a % b,
{
    (a / b, a % b)
}

/// A number below one hundred in two digits.
pub open spec fn two_digits(n: nat) -> Seq<char> {
    pad_left(decimal(n), 2, '0')
}

/// `12s`, `3m 04s`, `5h 03m 04s` or `2d 05h 03m 04s`: the largest unit first, without
/// leading zero units, each unit after the first in two digits.
pub open spec fn duration_text(total: nat) -> Seq<char> {
    let seconds = total % 60;
    let minutes_all = total / 60;
    let minutes = minutes_all % 60;
    let hours_all = minutes_all / 60;
    let hours = hours_all % 24;
    let days = hours_all / 24;
    if minutes_all == 0 {
        decimal(seconds) + seq!['s']
    } else if hours_all == 0 {
        decimal(minutes) + seq!['m', ' '] + two_digits(seconds) + seq!['s']
    } else if days == 0 {
        decimal(hours) + seq!['h', ' '] + two_digits(minutes) + seq!['m', ' '] + two_digits(
            seconds,
        ) + seq!['s']
    } else {
        decimal(days) + seq!['d', ' '] + two_digits(hours) + seq!['h', ' '] + two_digits(minutes)
            + seq!['m', ' '] + two_digits(seconds) + seq!['s']
    }
}

fn two_digit_string(n: u64) -> (r: String)
    ensures
        r@ == two_digits(n as nat),
{
    proof {
        reveal_strlit("0");
    }
    let s = decimal_string(n as u128);
    padded_left(s.as_str(), 2, "0")
}

/// A number of seconds as days, hours, minutes and seconds.
pub fn format_duration(total_seconds: u64) -> (r: String)
    ensures
        r@ == duration_text(total_seconds as nat),
{
    proof {
        reveal_strlit("s");
        reveal_strlit("m ");
        reveal_strlit("h ");
        reveal_strlit("d ");
    }
    let (minutes, seconds) = div_rem(total_seconds, 60);
    if minutes == 0 {
        let mut r = decimal_string(seconds as u128);
        r.append("s");
        return r;
    }
    let (hours, minutes) = div_rem(minutes, 60);
    if hours == 0 {
        let mut r = decimal_string(minutes as u128);
        r.append("m ");
        r.append(two_digit_string(seconds).as_str());
        r.append("s");
        return r;
    }
    let (days, hours) = div_rem(hours, 24);
    let mut r = String::new();
    if days != 0 {
        r.append(decimal_string(days as u128).as_str());
        r.append("d ");
        r.append(two_digit_string(hours).as_str());
    } else {
        r.append(decimal_string(hours as u128).as_str());
    }
    r.append("h ");
    r.append(two_digit_string(minutes).as_str());
    r.append("m ");
    r.append(two_digit_string(seconds).as_str());
    r.append("s");
    proof {
        assert(r@ =~= duration_text(total_seconds as nat));
    }
    r
}

/// The strings one after another, a separator between each two; a string that
/// comes while nothing has been written yet starts the text afresh.
pub open spec fn joined(parts: Seq<Seq<char>>, separator: Seq<char>) -> Seq<char>
    decreases parts.len(),
{
    if parts.len() == 0 {
        Seq::empty()
    } else {
        let res = joined(parts.drop_last(), separator);
        if res.len() == 0 {
            parts.last()
        } else {
            res + separator + parts.last()
        }
    }
}

pub open spec fn views_of(parts: Seq<String>) -> Seq<Seq<char>> {
    Seq::new(parts.len(), |i: int| parts[i]@)
}

/// Joins the strings with `separator` between them.
pub fn join_str_iter(parts: Vec<String>, separator: &str) -> (r: String)
    ensures
        r@ == joined(views_of(parts@), separator@),
{
    let mut r = String::new();
    let mut i: usize = 0;
    while i < parts.len()
        invariant
            i <= parts.len(),
            r@ == joined(views_of(parts@.take(i as int)), separator@),
        decreases parts.len() - i,
    {
        proof {
            assert(views_of(parts@.take(i as int + 1)).drop_last() =~= views_of(
                parts@.take(i as int),
            ));
        }
        if r.unicode_len() == 0 {
            r = parts[i].clone();
        } else {
            r.append(separator);
            r.append(parts[i].as_str());
        }
        i = i + 1;
    }
    assert(parts@.take(parts.len() as int) == parts@);
    r
}


/// `1024` to the power `i`.
pub open spec fn pow1024(i: nat) -> nat
    decreases i,
{
    if i == 0 {
        1
    } else {
        1024 * pow1024((i - 1) as nat)
    }
}

pub open spec fn pow10(i: nat) -> nat
    decreases i,
{
    if i == 0 {
        1
    } else {
        10 * pow10((i - 1) as nat)
    }
}

/// The last binary unit, counting up from `i`, that `size` reaches; `YiB` at most.
pub open spec fn unit_from(size: nat, i: nat) -> nat
    decreases 8 - i,
{
    if i < 8 && pow1024(i + 1) <= size {
        unit_from(size, i + 1)
    } else {
        i
    }
}

pub open spec fn unit_name(i: nat) -> Seq<char> {
    if i == 0 {
        seq!['B']
    } else if i == 1 {
        seq!['K', 'i', 'B']
    } else if i == 2 {
        seq!['M', 'i', 'B']
    } else if i == 3 {
        seq!['G', 'i', 'B']
    } else if i == 4 {
        seq!['T', 'i', 'B']
    } else if i == 5 {
        seq!['P', 'i', 'B']
    } else if i == 6 {
        seq!['E', 'i', 'B']
    } else if i == 7 {
        seq!['Z', 'i', 'B']
    } else {
        seq!['Y', 'i', 'B']
    }
}

/// `scaled / 10^places` written with `places` digits after the point.
pub open spec fn fixed_point(scaled: nat, places: nat) -> Seq<char> {
    if places == 0 {
        decimal(scaled)
    } else {
        decimal(scaled / pow10(places)) + seq!['.'] + pad_left(
            decimal(scaled % pow10(places)),
            places,
            '0',
        )
    }
}

/// A byte count in the largest binary unit it reaches: whole bytes below one KiB,
/// else the count in that unit rounded (halves up) to `places` decimals.
pub open spec fn size_text(size: nat, places: nat) -> Seq<char> {
    let i = unit_from(size, 0);
    if i == 0 {
        decimal(size) + seq![' ', 'B']
    } else {
        let p = pow1024(i);
        let scaled = (2 * size * pow10(places) + p) / (2 * p);
        fixed_point(scaled, places) + seq![' '] + unit_name(i)
    }
}

proof fn lemma_pow1024_bound(i: nat)
    requires
        i <= 8,
    ensures
        1 <= pow1024(i) <= pow1024(8),
        pow1024(8) == 0x1_0000_0000_0000_0000_0000,
    decreases i,
{
    reveal_with_fuel(pow1024, 9);
    if i > 0 && i < 8 {
        lemma_pow1024_bound((i - 1) as nat);
        lemma_pow1024_mono(i, 8);
    }
}

proof fn lemma_pow1024_mono(a: nat, b: nat)
    requires
        a <= b,
    ensures
        pow1024(a) <= pow1024(b),
    decreases b,
{
    if a < b {
        lemma_pow1024_mono(a, (b - 1) as nat);
        assert(pow1024((b - 1) as nat) >= 1) by {
            lemma_pow1024_pos((b - 1) as nat);
        }
    }
}

proof fn lemma_pow1024_pos(a: nat)
    ensures
        pow1024(a) >= 1,
    decreases a,
{
    if a > 0 {
        lemma_pow1024_pos((a - 1) as nat);
    }
}

proof fn lemma_pow10_bound(i: nat)
    requires
        i <= 18,
    ensures
        1 <= pow10(i) <= 1_000_000_000_000_000_000,
    decreases i,
{
    if i > 0 {
        lemma_pow10_bound((i - 1) as nat);
        lemma_pow10_mono((i - 1) as nat, 17);
        reveal_with_fuel(pow10, 19);
    }
}

proof fn lemma_pow10_mono(a: nat, b: nat)
    requires
        a <= b,
    ensures
        pow10(a) <= pow10(b),
    decreases b,
{
    if a < b {
        lemma_pow10_mono(a, (b - 1) as nat);
        lemma_pow10_pos((b - 1) as nat);
    }
}

proof fn lemma_pow10_pos(a: nat)
    ensures
        pow10(a) >= 1,
    decreases a,
{
    if a > 0 {
        lemma_pow10_pos((a - 1) as nat);
    }
}

fn fixed_point_string(scaled: u128, places: usize, scale: u128) -> (r: String)
    requires
        scale as nat == pow10(places as nat),
    ensures
        r@ == fixed_point(scaled as nat, places as nat),
{
    proof {
        reveal_strlit(".");
        reveal_strlit("0");
        lemma_pow10_pos(places as nat);
    }
    if places == 0 {
        return decimal_string(scaled);
    }
    let mut r = decimal_string(scaled / scale);
    r.append(".");
    let fraction = decimal_string(scaled % scale);
    r.append(padded_left(fraction.as_str(), places, "0").as_str());
    r
}

fn unit_str(i: usize) -> (r: &'static str)
    requires
        1 <= i <= 8,
    ensures
        r@ == unit_name(i as nat),
{
    proof {
        reveal_strlit("KiB");
        reveal_strlit("MiB");
        reveal_strlit("GiB");
        reveal_strlit("TiB");
        reveal_strlit("PiB");
        reveal_strlit("EiB");
        reveal_strlit("ZiB");
        reveal_strlit("YiB");
    }
    if i == 1 {
        "KiB"
    } else if i == 2 {
        "MiB"
    } else if i == 3 {
        "GiB"
    } else if i == 4 {
        "TiB"
    } else if i == 5 {
        "PiB"
    } else if i == 6 {
        "EiB"
    } else if i == 7 {
        "ZiB"
    } else {
        "YiB"
    }
}

/// The binary unit that `size` reaches, and 1024 to its power.
fn binary_unit(size: u64) -> (r: (usize, u128))
    ensures
        r.0 as nat == unit_from(size as nat, 0),
        r.0 <= 8,
        r.1 as nat == pow1024(r.0 as nat),
        1 <= r.1 <= 0x1_0000_0000_0000_0000_0000,
{
    let mut i: usize = 0;
    let mut p: u128 = 1;
    while i < 8 && p * 1024 <= size as u128
        invariant
            i <= 8,
            p as nat == pow1024(i as nat),
            p <= 0x1_0000_0000_0000_0000_0000,
            unit_from(size as nat, 0) == unit_from(size as nat, i as nat),
        decreases 8 - i,
    {
        proof {
            lemma_pow1024_bound(i as nat);
            lemma_pow1024_bound((i + 1) as nat);
        }
        p = p * 1024;
        i = i + 1;
    }
    proof {
        lemma_pow1024_bound(i as nat);
    }
    (i, p)
}

/// Ten to the power `places`.
fn decimal_scale(places: usize) -> (r: u128)
    requires
        places <= 18,
    ensures
        r as nat == pow10(places as nat),
        1 <= r <= 1_000_000_000_000_000_000,
{
    let mut scale: u128 = 1;
    let mut d: usize = 0;
    while d < places
        invariant
            d <= places <= 18,
            scale as nat == pow10(d as nat),
        decreases places - d,
    {
        proof {
            lemma_pow10_bound((d + 1) as nat);
        }
        scale = scale * 10;
        d = d + 1;
    }
    proof {
        lemma_pow10_bound(places as nat);
    }
    scale
}

/// `value / unit` rounded (halves up) to `places` decimals, written out.
fn scaled_text(value: u64, unit: u128, places: usize) -> (r: String)
    requires
        places <= 18,
        1 <= unit <= 0x1_0000_0000_0000_0000_0000,
    ensures
        r@ == fixed_point(
            ((2 * value * pow10(places as nat) + unit) / (2 * unit as int)) as nat,
            places as nat,
        ),
{
    let scale = decimal_scale(places);
    assert(2 * value * scale + unit <= 0xffff_ffff_ffff_ffff_ffff_ffff_ffff_ffff) by (nonlinear_arith)
        requires
            value <= 0xffff_ffff_ffff_ffff,
            scale <= 1_000_000_000_000_000_000,
            unit <= 0x1_0000_0000_0000_0000_0000,
    ;
    let scaled: u128 = (2 * value as u128 * scale + unit) / (2 * unit);
    fixed_point_string(scaled, places, scale)
}

/// A byte count in binary units with `decimal_places` decimals.
pub fn format_size(size: u64, decimal_places: usize) -> (r: String)
    requires
        decimal_places <= 18,
    ensures
        r@ == size_text(size as nat, decimal_places as nat),
{
    proof {
        reveal_strlit(" B");
        reveal_strlit(" ");
    }
    let (i, p) = binary_unit(size);
    if i == 0 {
        let mut r = decimal_string(size as u128);
        r.append(" B");
        return r;
    }
    let mut r = scaled_text(size, p, decimal_places);
    r.append(" ");
    r.append(unit_str(i));
    r
}

/// `used` and `total` in binary units with one decimal, each right-aligned to ten
/// characters, and the share as a whole percentage right-aligned to three.
pub open spec fn used_text(used: nat, total: nat) -> Seq<char> {
    pad_left(size_text(used, 1), 10, ' ') + seq!['/'] + pad_left(size_text(total, 1), 10, ' ')
        + seq![' ', '=', ' '] + pad_left(
        decimal(percent_rounded(used as u64, total as u64)),
        3,
        ' ',
    ) + seq!['%']
}

/// How much of a total is used, in memory units.
pub fn format_used(used: u64, total: u64) -> (r: String)
    ensures
        r@ == used_text(used as nat, total as nat),
{
    proof {
        reveal_strlit(" ");
        reveal_strlit("/");
        reveal_strlit(" = ");
        reveal_strlit("%");
    }
    let mut r = padded_left(format_size(used, 1).as_str(), 10, " ");
    r.append("/");
    r.append(padded_left(format_size(total, 1).as_str(), 10, " ").as_str());
    r.append(" = ");
    let pct = percentage(used, total);
    r.append(padded_left(decimal_string(pct as u128).as_str(), 3, " ").as_str());
    r.append("%");
    r
}


/// A rate in the largest binary unit it reaches, with `places` decimals rounded
/// (halves up), and `/s`; below one KiB in bytes, with decimals too.
pub open spec fn speed_text(speed: nat, places: nat) -> Seq<char> {
    let i = unit_from(speed, 0);
    let p = pow1024(i);
    let scaled = (2 * speed * pow10(places) + p) / (2 * p);
    fixed_point(scaled, places) + seq![' '] + unit_name(i) + seq!['/', 's']
}

/// A rate in bytes per second, in binary units with `decimal_places` decimals.
pub fn format_speed(speed: u64, decimal_places: usize) -> (r: String)
    requires
        decimal_places <= 18,
    ensures
        r@ == speed_text(speed as nat, decimal_places as nat),
{
    proof {
        reveal_strlit(" ");
        reveal_strlit("B");
        reveal_strlit("/s");
    }
    let (i, p) = binary_unit(speed);
    let mut r = scaled_text(speed, p, decimal_places);
    r.append(" ");
    if i == 0 {
        r.append("B");
    } else {
        r.append(unit_str(i));
    }
    r.append("/s");
    r
}

} // verus!
