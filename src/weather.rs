//! What the weather panel derives from a fetched report.

use vstd::prelude::*;

verus! {

/// One weather condition of a report.
pub struct WeatherDataWeather {
    pub id: u64,
    pub main: String,
    pub description: String,
    pub icon: String,
}

/// The country and the sunrise and sunset times (Unix seconds) of a report.
pub struct WeatherDataSys {
    pub country: String,
    pub sunrise: u64,
    pub sunset: u64,
}

/// `text` in title case: words split at boundaries and each capitalized, joined by
/// single spaces.
pub uninterp spec fn title_case_of(text: Seq<char>) -> Seq<char>;

/// Relies on `heck::ToTitleCase::to_title_case` for `str`, whose result depends on the
/// text alone.
#[verifier::external_body]
fn title_case(text: &str) -> (r: String)
    ensures
        r@ == title_case_of(text@),
{
    heck::ToTitleCase::to_title_case(text)
}

impl WeatherDataWeather {
    /// The description as the panel shows it, in title case.
    pub fn title_description(&self) -> (r: String)
        ensures
            r@ == title_case_of(self.description@),
    {
        title_case(self.description.as_str())
    }
}

/// The symbol for an icon code by its first two characters, the condition group.
pub open spec fn icon_symbol(a: char, b: char) -> Option<Seq<char>> {
    if a == '0' && b == '1' {
        Some("☀️"@)
    } else if a == '0' && b == '2' {
        Some("🌤️"@)
    } else if a == '0' && b == '3' {
        Some("🌥️"@)
    } else if a == '0' && b == '4' {
        Some("☁️"@)
    } else if a == '0' && b == '9' {
        Some("🌧️"@)
    } else if a == '1' && b == '0' {
        Some("🌦️"@)
    } else if a == '1' && b == '1' {
        Some("🌩️"@)
    } else if a == '1' && b == '3' {
        Some("🌨️"@)
    } else if a == '5' && b == '0' {
        Some("🌫️"@)
    } else {
        None
    }
}

/// The weather symbol for an icon code such as `10d`; `None` for a code of fewer
/// than two characters or of an unknown group.
pub fn condition_icon(code: &str) -> (r: Option<&'static str>)
    ensures
        code@.len() < 2 ==> r is None,
        code@.len() >= 2 ==> match icon_symbol(code@[0], code@[1]) {
            Some(s) => r matches Some(t) && t@ == s,
            None => r is None,
        },
{
    if code.unicode_len() < 2 {
        return None;
    }
    let a = code.get_char(0);
    let b = code.get_char(1);
    if a == '0' && b == '1' {
        Some("☀️")
    } else if a == '0' && b == '2' {
        Some("🌤️")
    } else if a == '0' && b == '3' {
        Some("🌥️")
    } else if a == '0' && b == '4' {
        Some("☁️")
    } else if a == '0' && b == '9' {
        Some("🌧️")
    } else if a == '1' && b == '0' {
        Some("🌦️")
    } else if a == '1' && b == '1' {
        Some("🌩️")
    } else if a == '1' && b == '3' {
        Some("🌨️")
    } else if a == '5' && b == '0' {
        Some("🌫️")
    } else {
        None
    }
}

/// The compass sector, of sixteen, that a bearing in whole degrees points into; a
/// sector is centred on its direction, so `N` covers 348.75 up to 11.25.
pub open spec fn sector_of(degrees: nat) -> nat {
    ((4 * degrees + 45) / 90) % 16
}

pub open spec fn sector_name(i: nat) -> Seq<char> {
    if i == 0 {
        "N"@
    } else if i == 1 {
        "NNE"@
    } else if i == 2 {
        "NE"@
    } else if i == 3 {
        "ENE"@
    } else if i == 4 {
        "E"@
    } else if i == 5 {
        "ESE"@
    } else if i == 6 {
        "SE"@
    } else if i == 7 {
        "SSE"@
    } else if i == 8 {
        "S"@
    } else if i == 9 {
        "SSW"@
    } else if i == 10 {
        "SW"@
    } else if i == 11 {
        "WSW"@
    } else if i == 12 {
        "W"@
    } else if i == 13 {
        "WNW"@
    } else if i == 14 {
        "NW"@
    } else {
        "NNW"@
    }
}

/// The compass direction of a wind bearing in whole degrees.
pub fn degrees_to_direction(degrees: u32) -> (r: &'static str)
    ensures
        r@ == sector_name(sector_of(degrees as nat)),
{
    let i: u64 = ((4 * degrees as u64 + 45) / 90) % 16;
    if i == 0 {
        "N"
    } else if i == 1 {
        "NNE"
    } else if i == 2 {
        "NE"
    } else if i == 3 {
        "ENE"
    } else if i == 4 {
        "E"
    } else if i == 5 {
        "ESE"
    } else if i == 6 {
        "SE"
    } else if i == 7 {
        "SSE"
    } else if i == 8 {
        "S"
    } else if i == 9 {
        "SSW"
    } else if i == 10 {
        "SW"
    } else if i == 11 {
        "WSW"
    } else if i == 12 {
        "W"
    } else if i == 13 {
        "WNW"
    } else if i == 14 {
        "NW"
    } else {
        "NNW"
    }
}

} // verus!
