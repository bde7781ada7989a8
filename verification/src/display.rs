//! Display helpers: weather-code and air-quality descriptions, icon
//! names, compass points, clock formatting and location display names.

use vstd::prelude::*;
use vstd::string::{StrSliceExecFns, StringExecFns};

use crate::geo::Region;
use crate::polygon::{digits_value, all_digits, is_digit, digit_val, first_index};

verus! {

/// AQI standard used for a region.
#[derive(Clone, Copy, Debug, PartialEq, Eq, Structural)]
pub enum AqiStandard {
    Us,
    European,
}

/// The AQI standard shown for a region: the European scale in Europe,
/// the US scale everywhere else.
pub open spec fn aqi_standard_spec(region: Region) -> AqiStandard {
    match region {
        Region::Europe => AqiStandard::European,
        _ => AqiStandard::Us,
    }
}

/// Picks the AQI standard for a region.
pub fn aqi_standard_for_region(region: Region) -> (r: AqiStandard)
    ensures
        r == aqi_standard_spec(region),
{
    match region {
        Region::Europe => AqiStandard::European,
        _ => AqiStandard::Us,
    }
}

/// Label of the AQI standard.
pub fn aqi_standard_label(standard: AqiStandard) -> (r: &'static str)
    ensures
        r@ == match standard {
            AqiStandard::Us => "US AQI"@,
            AqiStandard::European => "EU AQI"@,
        },
{
    match standard {
        AqiStandard::Us => "US AQI",
        AqiStandard::European => "EU AQI",
    }
}

/// The US AQI scale's description bands.
pub open spec fn us_aqi_description_spec(aqi: int) -> Seq<char> {
    if 0 <= aqi <= 50 {
        "Good"@
    } else if 51 <= aqi <= 100 {
        "Moderate"@
    } else if 101 <= aqi <= 150 {
        "Unhealthy for Sensitive Groups"@
    } else if 151 <= aqi <= 200 {
        "Unhealthy"@
    } else if 201 <= aqi <= 300 {
        "Very Unhealthy"@
    } else {
        "Hazardous"@
    }
}

/// Describes a US AQI value.
pub fn us_aqi_to_description(aqi: i32) -> (r: &'static str)
    ensures
        r@ == us_aqi_description_spec(aqi as int),
{
    if 0 <= aqi && aqi <= 50 {
        "Good"
    } else if 51 <= aqi && aqi <= 100 {
        "Moderate"
    } else if 101 <= aqi && aqi <= 150 {
        "Unhealthy for Sensitive Groups"
    } else if 151 <= aqi && aqi <= 200 {
        "Unhealthy"
    } else if 201 <= aqi && aqi <= 300 {
        "Very Unhealthy"
    } else {
        "Hazardous"
    }
}

/// The European AQI scale's description bands.
pub open spec fn eu_aqi_description_spec(aqi: int) -> Seq<char> {
    if 0 <= aqi <= 20 {
        "Good"@
    } else if 21 <= aqi <= 40 {
        "Fair"@
    } else if 41 <= aqi <= 60 {
        "Moderate"@
    } else if 61 <= aqi <= 80 {
        "Poor"@
    } else if 81 <= aqi <= 100 {
        "Very Poor"@
    } else {
        "Extremely Poor"@
    }
}

/// Describes a European AQI value.
pub fn eu_aqi_to_description(aqi: i32) -> (r: &'static str)
    ensures
        r@ == eu_aqi_description_spec(aqi as int),
{
    if 0 <= aqi && aqi <= 20 {
        "Good"
    } else if 21 <= aqi && aqi <= 40 {
        "Fair"
    } else if 41 <= aqi && aqi <= 60 {
        "Moderate"
    } else if 61 <= aqi && aqi <= 80 {
        "Poor"
    } else if 81 <= aqi && aqi <= 100 {
        "Very Poor"
    } else {
        "Extremely Poor"
    }
}

/// Describes an AQI value on the given standard's scale.
pub fn aqi_to_description(aqi: i32, standard: AqiStandard) -> (r: &'static str)
    ensures
        r@ == match standard {
            AqiStandard::Us => us_aqi_description_spec(aqi as int),
            AqiStandard::European => eu_aqi_description_spec(aqi as int),
        },
{
    match standard {
        AqiStandard::Us => us_aqi_to_description(aqi),
        AqiStandard::European => eu_aqi_to_description(aqi),
    }
}

/// The WMO weather-code descriptions.
pub open spec fn weathercode_description_spec(code: int) -> Seq<char> {
    if code == 0 {
        "Clear sky"@
    } else if code == 1 {
        "Mainly clear"@
    } else if code == 2 {
        "Partly cloudy"@
    } else if code == 3 {
        "Overcast"@
    } else if code == 45 || code == 48 {
        "Foggy"@
    } else if code == 51 || code == 53 || code == 55 {
        "Drizzle"@
    } else if code == 61 || code == 63 || code == 65 {
        "Rain"@
    } else if code == 71 || code == 73 || code == 75 {
        "Snow"@
    } else if code == 77 {
        "Snow grains"@
    } else if 80 <= code <= 82 {
        "Rain showers"@
    } else if code == 85 || code == 86 {
        "Snow showers"@
    } else if code == 95 {
        "Thunderstorm"@
    } else if code == 96 || code == 99 {
        "Thunderstorm with hail"@
    } else {
        "Unknown"@
    }
}

/// Describes a WMO weather code.
pub fn weathercode_to_description(code: i32) -> (r: &'static str)
    ensures
        r@ == weathercode_description_spec(code as int),
{
    if code == 0 {
        "Clear sky"
    } else if code == 1 {
        "Mainly clear"
    } else if code == 2 {
        "Partly cloudy"
    } else if code == 3 {
        "Overcast"
    } else if code == 45 || code == 48 {
        "Foggy"
    } else if code == 51 || code == 53 || code == 55 {
        "Drizzle"
    } else if code == 61 || code == 63 || code == 65 {
        "Rain"
    } else if code == 71 || code == 73 || code == 75 {
        "Snow"
    } else if code == 77 {
        "Snow grains"
    } else if 80 <= code && code <= 82 {
        "Rain showers"
    } else if code == 85 || code == 86 {
        "Snow showers"
    } else if code == 95 {
        "Thunderstorm"
    } else if code == 96 || code == 99 {
        "Thunderstorm with hail"
    } else {
        "Unknown"
    }
}

/// The freedesktop icon for a WMO weather code, day or night.
pub open spec fn weathercode_icon_spec(code: int, is_night: bool) -> Seq<char> {
    if code == 0 {
        if is_night {
            "weather-clear-night"@
        } else {
            "weather-clear"@
        }
    } else if code == 1 || code == 2 {
        if is_night {
            "weather-few-clouds-night"@
        } else {
            "weather-few-clouds"@
        }
    } else if code == 3 {
        "weather-overcast"@
    } else if code == 45 || code == 48 {
        "weather-fog"@
    } else if code == 51 || code == 53 || code == 55 {
        "weather-showers-scattered"@
    } else if code == 61 || code == 63 || code == 65 {
        "weather-showers"@
    } else if code == 71 || code == 73 || code == 75 || code == 77 {
        "weather-snow"@
    } else if 80 <= code <= 82 {
        "weather-showers"@
    } else if code == 85 || code == 86 {
        "weather-snow"@
    } else if code == 95 || code == 96 || code == 99 {
        "weather-storm"@
    } else {
        "weather-severe-alert"@
    }
}

/// Picks the freedesktop icon name for a WMO weather code.
pub fn weathercode_to_icon_name(code: i32, is_night: bool) -> (r: &'static str)
    ensures
        r@ == weathercode_icon_spec(code as int, is_night),
{
    if code == 0 {
        if is_night {
            "weather-clear-night"
        } else {
            "weather-clear"
        }
    } else if code == 1 || code == 2 {
        if is_night {
            "weather-few-clouds-night"
        } else {
            "weather-few-clouds"
        }
    } else if code == 3 {
        "weather-overcast"
    } else if code == 45 || code == 48 {
        "weather-fog"
    } else if code == 51 || code == 53 || code == 55 {
        "weather-showers-scattered"
    } else if code == 61 || code == 63 || code == 65 {
        "weather-showers"
    } else if code == 71 || code == 73 || code == 75 || code == 77 {
        "weather-snow"
    } else if 80 <= code && code <= 82 {
        "weather-showers"
    } else if code == 85 || code == 86 {
        "weather-snow"
    } else if code == 95 || code == 96 || code == 99 {
        "weather-storm"
    } else {
        "weather-severe-alert"
    }
}

/// The compass point of a wind direction in degrees; directions
/// outside 0 to 360 read as north.
pub open spec fn compass_spec(degrees: int) -> Seq<char> {
    if (0 <= degrees <= 22) || (338 <= degrees <= 360) {
        "N"@
    } else if 23 <= degrees <= 67 {
        "NE"@
    } else if 68 <= degrees <= 112 {
        "E"@
    } else if 113 <= degrees <= 157 {
        "SE"@
    } else if 158 <= degrees <= 202 {
        "S"@
    } else if 203 <= degrees <= 247 {
        "SW"@
    } else if 248 <= degrees <= 292 {
        "W"@
    } else if 293 <= degrees <= 337 {
        "NW"@
    } else {
        "N"@
    }
}

/// Names the compass point of a wind direction in degrees.
pub fn wind_direction_to_compass(degrees: i32) -> (r: &'static str)
    ensures
        r@ == compass_spec(degrees as int),
{
    if (0 <= degrees && degrees <= 22) || (338 <= degrees && degrees <= 360) {
        "N"
    } else if 23 <= degrees && degrees <= 67 {
        "NE"
    } else if 68 <= degrees && degrees <= 112 {
        "E"
    } else if 113 <= degrees && degrees <= 157 {
        "SE"
    } else if 158 <= degrees && degrees <= 202 {
        "S"
    } else if 203 <= degrees && degrees <= 247 {
        "SW"
    } else if 248 <= degrees && degrees <= 292 {
        "W"
    } else if 293 <= degrees && degrees <= 337 {
        "NW"
    } else {
        "N"
    }
}

/// The display name of a geocoding hit: the place name, the
/// administrative area where known, and the country where known,
/// joined by commas.
pub open spec fn display_name_spec(
    name: Seq<char>,
    admin1: Option<Seq<char>>,
    country: Option<Seq<char>>,
) -> Seq<char> {
    match (admin1, country) {
        (Some(a), Some(c)) => name + ", "@ + a + ", "@ + c,
        (None, Some(c)) => name + ", "@ + c,
        _ => name,
    }
}

/// Builds the display name of a geocoding hit.
pub fn location_display_name(name: &str, admin1: &Option<String>, country: &Option<String>) -> (r:
    String)
    ensures
        r@ == display_name_spec(
            name@,
            crate::alert::opt_str_view(*admin1),
            crate::alert::opt_str_view(*country),
        ),
{
    match (admin1, country) {
        (Some(a), Some(c)) => {
            let r = name.to_owned().concat(", ").concat(a.as_str()).concat(", ").concat(c.as_str());
            r
        },
        (None, Some(c)) => {
            let r = name.to_owned().concat(", ").concat(c.as_str());
            r
        },
        _ => name.to_owned(),
    }
}

/// The character of one decimal digit.
pub open spec fn digit_char(d: int) -> char {
    if d == 0 {
        '0'
    } else if d == 1 {
        '1'
    } else if d == 2 {
        '2'
    } else if d == 3 {
        '3'
    } else if d == 4 {
        '4'
    } else if d == 5 {
        '5'
    } else if d == 6 {
        '6'
    } else if d == 7 {
        '7'
    } else if d == 8 {
        '8'
    } else {
        '9'
    }
}

/// Decimal rendering of a number, most significant digit first.
pub open spec fn dec_spec(n: int) -> Seq<char>
    decreases n,
{
    if n < 10 {
        seq![digit_char(n)]
    } else {
        dec_spec(n / 10).push(digit_char(n % 10))
    }
}

/// One decimal digit as a string.
fn digit_str(d: u32) -> (r: &'static str)
    requires
        d < 10,
    ensures
        r@ == seq![digit_char(d as int)],
{
    proof {
        reveal_strlit("0");
        reveal_strlit("1");
        reveal_strlit("2");
        reveal_strlit("3");
        reveal_strlit("4");
        reveal_strlit("5");
        reveal_strlit("6");
        reveal_strlit("7");
        reveal_strlit("8");
        reveal_strlit("9");
        assert("0"@ =~= seq![digit_char(0)]);
        assert("1"@ =~= seq![digit_char(1)]);
        assert("2"@ =~= seq![digit_char(2)]);
        assert("3"@ =~= seq![digit_char(3)]);
        assert("4"@ =~= seq![digit_char(4)]);
        assert("5"@ =~= seq![digit_char(5)]);
        assert("6"@ =~= seq![digit_char(6)]);
        assert("7"@ =~= seq![digit_char(7)]);
        assert("8"@ =~= seq![digit_char(8)]);
        assert("9"@ =~= seq![digit_char(9)]);
    }
    match d {
        0 => "0",
        1 => "1",
        2 => "2",
        3 => "3",
        4 => "4",
        5 => "5",
        6 => "6",
        7 => "7",
        8 => "8",
        _ => "9",
    }
}

/// Renders a number in decimal.
pub fn u32_to_decimal(n: u32) -> (r: String)
    ensures
        r@ == dec_spec(n as int),
    decreases n,
{
    if n < 10 {
        digit_str(n).to_owned()
    } else {
        let r = u32_to_decimal(n / 10).concat(digit_str(n % 10));
        proof {
            assert(dec_spec(n as int / 10) + seq![digit_char(n as int % 10)] =~= dec_spec(
                n as int,
            ));
        }
        r
    }
}

/// The 12-hour reading of an hour count: the displayed hour and
/// whether it is PM. Hour zero reads twelve AM; hours past twelve read
/// twelve less, PM.
pub open spec fn hour12_spec(h: int) -> (int, bool) {
    if h == 0 {
        (12, false)
    } else if h < 12 {
        (h, false)
    } else if h == 12 {
        (12, true)
    } else {
        (h - 12, true)
    }
}

/// The AM or PM tag.
pub open spec fn am_pm_spec(pm: bool) -> Seq<char> {
    if pm {
        "PM"@
    } else {
        "AM"@
    }
}

/// The digits a u32 reading accepts: nonempty, all digits, within the
/// type's range.
pub open spec fn parse_u32_spec(d: Seq<char>) -> Option<int> {
    if all_digits(d) && d.len() > 0 && digits_value(d) <= 0xFFFF_FFFF {
        Some(digits_value(d))
    } else {
        None
    }
}

/// The hour and minute fields of an ISO-like timestamp: the text
/// between the first 'T' and the following 'T' or end, split at its
/// first two colons.
pub open spec fn time_part_spec(s: Seq<char>) -> Option<Seq<char>> {
    match crate::polygon::first_index(s, 'T') {
        None => None,
        Some(t) => {
            let rest = s.skip(t + 1);
            match crate::polygon::first_index(rest, 'T') {
                Some(t2) => Some(rest.take(t2)),
                None => Some(rest),
            }
        },
    }
}

/// What the hour formatter shows for a timestamp: the hour field on a
/// 12-hour clock with zeroed minutes, or the input unchanged where no
/// hour can be read.
pub open spec fn hour_display_spec(s: Seq<char>) -> Seq<char> {
    match time_part_spec(s) {
        None => s,
        Some(tp) => {
            let hf = match crate::polygon::first_index(tp, ':') {
                Some(c) => tp.take(c),
                None => tp,
            };
            match parse_u32_spec(hf) {
                Some(h) => dec_spec(hour12_spec(h).0) + ":00 "@ + am_pm_spec(hour12_spec(h).1),
                None => s,
            }
        },
    }
}

/// What the time formatter shows for a timestamp: hour and minute on a
/// 12-hour clock, or the input unchanged where they cannot be read.
pub open spec fn time_display_spec(s: Seq<char>) -> Seq<char> {
    match time_part_spec(s) {
        None => s,
        Some(tp) => match crate::polygon::first_index(tp, ':') {
            None => s,
            Some(c) => {
                let c0 = tp.take(c);
                let after = tp.skip(c + 1);
                let c1 = match crate::polygon::first_index(after, ':') {
                    Some(c2) => after.take(c2),
                    None => after,
                };
                match (parse_u32_spec(c0), parse_u32_spec(c1)) {
                    (Some(h), Some(m)) => dec_spec(hour12_spec(h).0) + ":"@ + pad2_spec(m) + " "@
                        + am_pm_spec(hour12_spec(h).1),
                    _ => s,
                }
            },
        },
    }
}

/// Minutes padded to two places.
pub open spec fn pad2_spec(m: int) -> Seq<char> {
    if m < 10 {
        seq!['0'] + dec_spec(m)
    } else {
        dec_spec(m)
    }
}

/// Reads a u32 the way `str::parse` does on plain digit strings.
fn parse_u32_digits(d: &str) -> (r: Option<u32>)
    ensures
        (match r {
            Some(v) => parse_u32_spec(d@) == Some(v as int),
            None => parse_u32_spec(d@) is None,
        }),
{
    let n = d.unicode_len();
    if n == 0 {
        return None;
    }
    let mut acc: u64 = 0;
    let mut i: usize = 0;
    while i < n
        invariant
            i <= n,
            n == d@.len(),
            all_digits(d@.take(i as int)),
            ({
                let dv = digits_value(d@.take(i as int));
                (dv <= 0xFFFF_FFFFint && acc == dv) || (dv > 0xFFFF_FFFFint && acc
                    == 0x1_0000_0000u64)
            }),
            acc <= 0x1_0000_0000u64,
        decreases n - i,
    {
        let c = d.get_char(i);
        let u = c as u32;
        if u < 48 || 57 < u {
            proof {
                assert(!is_digit(d@[i as int]));
            }
            return None;
        }
        proof {
            assert(d@.take(i + 1).drop_last() =~= d@.take(i as int));
            assert(d@.take(i + 1).last() == d@[i as int]);
            assert(digit_val(d@[i as int]) == u - 48);
        }
        let t1 = acc * 10 + ((u - 48) as u64);
        if t1 > 0xFFFF_FFFF {
            acc = 0x1_0000_0000;
        } else {
            acc = t1;
        }
        i = i + 1;
    }
    proof {
        assert(d@.take(n as int) =~= d@);
    }
    if acc > 0xFFFF_FFFF {
        None
    } else {
        Some(acc as u32)
    }
}

/// The hour and whether it is PM, on the 12-hour clock.
fn hour12(h: u32) -> (r: (u32, bool))
    ensures
        (r.0 as int, r.1) == hour12_spec(h as int),
{
    if h == 0 {
        (12, false)
    } else if h < 12 {
        (h, false)
    } else if h == 12 {
        (12, true)
    } else {
        (h - 12, true)
    }
}

/// Index of the first `c` in the window `[from, stop)` of `s`, or
/// `stop` where the window holds none.
fn field_until(s: &str, from: usize, stop: usize, c: char) -> (r: usize)
    requires
        from <= stop <= s@.len(),
    ensures
        from <= r <= stop,
        (match first_index(s@.subrange(from as int, stop as int), c) {
            Some(k) => r == from + k && r < stop,
            None => r == stop,
        }),
{
    let ghost w = s@.subrange(from as int, stop as int);
    let mut i = from;
    while i < stop && s.get_char(i) != c
        invariant
            from <= i <= stop,
            stop <= s@.len(),
            w == s@.subrange(from as int, stop as int),
            forall|j: int| from <= j < i ==> s@[j] != c,
        decreases stop - i,
    {
        i = i + 1;
    }
    if i < stop {
        proof {
            assert(w[i - from] == c);
            assert forall|j: int| 0 <= j < i - from implies w[j] != c by {
                assert(s@[from + j] != c);
            }
            crate::polygon::lemma_first_index_is(w, c, i - from);
        }
    } else {
        proof {
            crate::polygon::lemma_first_index(w, c);
            if first_index(w, c) is Some {
                let fi = first_index(w, c)->Some_0;
                assert(s@[from + fi] != c);
            }
        }
    }
    i
}

/// Formats a timestamp's hour for the hourly forecast: "14:00" shows
/// as "2:00 PM". A string without a readable hour is shown unchanged.
pub fn format_hour(time_str: &str) -> (r: String)
    ensures
        r@ == hour_display_spec(time_str@),
{
    let n = time_str.unicode_len();
    proof {
        assert(time_str@.subrange(0, n as int) =~= time_str@);
        assert(time_str@.skip(0) =~= time_str@);
    }
    let t = field_until(time_str, 0, n, 'T');
    if t == n {
        return time_str.to_owned();
    }
    let ghost rest = time_str@.skip(t + 1);
    proof {
        assert(rest =~= time_str@.subrange(t + 1, n as int));
    }
    let tp_end = field_until(time_str, t + 1, n, 'T');
    let ghost tp = (match first_index(rest, 'T') {
        Some(t2) => rest.take(t2),
        None => rest,
    });
    proof {
        assert(tp =~= time_str@.subrange(t + 1, tp_end as int));
    }
    let hf_end = field_until(time_str, t + 1, tp_end, ':');
    let hfs = time_str.substring_char(t + 1, hf_end);
    proof {
        assert(hfs@ =~= (match first_index(tp, ':') {
            Some(c) => tp.take(c),
            None => tp,
        }));
    }
    match parse_u32_digits(hfs) {
        Some(h) => {
            let (dh, pm) = hour12(h);
            let r = u32_to_decimal(dh).concat(":00 ").concat(
                if pm {
                    "PM"
                } else {
                    "AM"
                },
            );
            proof {
                assert(r@ =~= dec_spec(hour12_spec(h as int).0) + ":00 "@ + am_pm_spec(
                    hour12_spec(h as int).1,
                ));
            }
            r
        },
        None => time_str.to_owned(),
    }
}

/// Formats a timestamp's time of day: "06:30:00" shows as "6:30 AM".
/// A string without readable hour and minute fields is shown
/// unchanged.
pub fn format_time(time_str: &str) -> (r: String)
    ensures
        r@ == time_display_spec(time_str@),
{
    let n = time_str.unicode_len();
    proof {
        assert(time_str@.subrange(0, n as int) =~= time_str@);
        assert(time_str@.skip(0) =~= time_str@);
    }
    let t = field_until(time_str, 0, n, 'T');
    if t == n {
        return time_str.to_owned();
    }
    let ghost rest = time_str@.skip(t + 1);
    proof {
        assert(rest =~= time_str@.subrange(t + 1, n as int));
    }
    let tp_end = field_until(time_str, t + 1, n, 'T');
    let ghost tp = (match first_index(rest, 'T') {
        Some(t2) => rest.take(t2),
        None => rest,
    });
    proof {
        assert(tp =~= time_str@.subrange(t + 1, tp_end as int));
    }
    let c = field_until(time_str, t + 1, tp_end, ':');
    if c == tp_end {
        return time_str.to_owned();
    }
    let c0s = time_str.substring_char(t + 1, c);
    proof {
        assert(first_index(tp, ':') == Some(c - t - 1));
        assert(c0s@ =~= tp.take(c - t - 1));
    }
    let ghost after = tp.skip(c - t - 1 + 1);
    proof {
        assert(after =~= time_str@.subrange(c + 1, tp_end as int));
    }
    let c1_end = field_until(time_str, c + 1, tp_end, ':');
    let c1s = time_str.substring_char(c + 1, c1_end);
    proof {
        assert(c1s@ =~= (match first_index(after, ':') {
            Some(c2) => after.take(c2),
            None => after,
        }));
    }
    match (parse_u32_digits(c0s), parse_u32_digits(c1s)) {
        (Some(h), Some(m)) => {
            let (dh, pm) = hour12(h);
            let pad = if m < 10 {
                "0".to_owned().concat(u32_to_decimal(m).as_str())
            } else {
                u32_to_decimal(m)
            };
            proof {
                assert(pad@ =~= pad2_spec(m as int)) by {
                    if m < 10 {
                        reveal_strlit("0");
                        assert("0"@ =~= seq!['0']);
                    }
                };
            }
            let r = u32_to_decimal(dh).concat(":").concat(pad.as_str()).concat(" ").concat(
                if pm {
                    "PM"
                } else {
                    "AM"
                },
            );
            proof {
                assert(r@ =~= dec_spec(hour12_spec(h as int).0) + ":"@ + pad2_spec(m as int) + " "@
                    + am_pm_spec(hour12_spec(h as int).1));
            }
            r
        },
        _ => time_str.to_owned(),
    }
}

/// The label chrono renders for a `%Y-%m-%d` date: weekday, month and
/// day; `None` where the string is not such a date. The value is a
/// function of the string alone.
pub uninterp spec fn date_label_of(s: Seq<char>) -> Option<Seq<char>>;

/// Relies on chrono's NaiveDate::parse_from_str and its `%a %b %d`
/// formatting: both compute from the string alone, with fixed English
/// names.
#[verifier::external_body]
fn chrono_date_label(s: &str) -> (r: Option<String>)
    ensures
        (match (r, date_label_of(s@)) {
            (Some(l), Some(sl)) => l@ == sl,
            (None, None) => true,
            _ => false,
        }),
{
    match chrono::NaiveDate::parse_from_str(s, "%Y-%m-%d") {
        Ok(d) => Some(d.format("%a %b %d").to_string()),
        Err(_) => None,
    }
}

/// Formats a date for the daily forecast: "2025-11-25" shows as
/// "Tue Nov 25"; a string that is not such a date is shown unchanged.
pub fn format_date(date_str: &str) -> (r: String)
    ensures
        r@ == (match date_label_of(date_str@) {
            Some(l) => l,
            None => date_str@,
        }),
{
    match chrono_date_label(date_str) {
        Some(l) => l,
        None => date_str.to_owned(),
    }
}

} // verus!
