//! Colours written as `#rrggbb`.

use vstd::prelude::*;
use vstd::utf8::is_ascii_chars;

verus! {

/// A colour by its red, green and blue components.
#[derive(Clone, Copy, PartialEq, Eq, Structural, Debug)]
pub struct Rgb {
    pub r: u8,
    pub g: u8,
    pub b: u8,
}

/// The text is not a colour.
#[derive(Clone, Copy, PartialEq, Eq, Structural, Debug)]
pub enum ColorError {
    Parse,
}

pub open spec fn hex_digit(c: char) -> Option<nat> {
    if '0' <= c && c <= '9' {
        Some((c as u32 - '0' as u32) as nat)
    } else if 'a' <= c && c <= 'f' {
        Some((c as u32 - 'a' as u32 + 10) as nat)
    } else if 'A' <= c && c <= 'F' {
        Some((c as u32 - 'A' as u32 + 10) as nat)
    } else {
        None
    }
}

/// The byte that two characters write in base 16: two hex digits, or `+` and one.
pub open spec fn hex_byte(a: char, b: char) -> Option<u8> {
    if a == '+' {
        match hex_digit(b) {
            Some(y) => Some(y as u8),
            None => None,
        }
    } else {
        match (hex_digit(a), hex_digit(b)) {
            (Some(x), Some(y)) => Some((16 * x + y) as u8),
            _ => None,
        }
    }
}

/// The colour that a seven-character ASCII text such as `#1e90ff` writes; its first
/// character is not looked at.
pub open spec fn color_of(s: Seq<char>) -> Option<Rgb> {
    if s.len() == 7 && is_ascii_chars(s) {
        match (hex_byte(s[1], s[2]), hex_byte(s[3], s[4]), hex_byte(s[5], s[6])) {
            (Some(r), Some(g), Some(b)) => Some(Rgb { r, g, b }),
            _ => None,
        }
    } else {
        None
    }
}

fn hex_digit_value(c: char) -> (r: Option<u8>)
    ensures
        r matches Some(v) ==> hex_digit(c) == Some(v as nat) && v < 16,
        r is None ==> hex_digit(c) is None,
{
    if '0' <= c && c <= '9' {
        Some((c as u32 - '0' as u32) as u8)
    } else if 'a' <= c && c <= 'f' {
        Some((c as u32 - 'a' as u32 + 10) as u8)
    } else if 'A' <= c && c <= 'F' {
        Some((c as u32 - 'A' as u32 + 10) as u8)
    } else {
        None
    }
}

fn hex_pair(a: char, b: char) -> (r: Option<u8>)
    ensures
        r == hex_byte(a, b),
{
    if a == '+' {
        return hex_digit_value(b);
    }
    match (hex_digit_value(a), hex_digit_value(b)) {
        (Some(x), Some(y)) => Some(16 * x + y),
        _ => None,
    }
}

/// Reads a colour written as `#rrggbb`.
pub fn parse_hex_skia_color(color: &str) -> (r: Result<Rgb, ColorError>)
    ensures
        r is Ok <==> color_of(color@) is Some,
        r matches Ok(c) ==> color_of(color@) == Some(c),
{
    if color.unicode_len() != 7 || !color.is_ascii() {
        return Err(ColorError::Parse);
    }
    let r = hex_pair(color.get_char(1), color.get_char(2));
    let g = hex_pair(color.get_char(3), color.get_char(4));
    let b = hex_pair(color.get_char(5), color.get_char(6));
    match (r, g, b) {
        (Some(r), Some(g), Some(b)) => Ok(Rgb { r, g, b }),
        _ => Err(ColorError::Parse),
    }
}

} // verus!
