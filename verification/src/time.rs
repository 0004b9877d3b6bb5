use vstd::prelude::*;
use vstd::string::StrSliceExecFns;

use crate::error::WeatherError;
use crate::text::{digit_char, digit_text, digit_val, digit_value, is_digit};

verus! {

/// A naive date-time: a calendar date and a wall-clock time with no
/// timezone attached, as the hourly timestamps of a forecast carry it.
#[derive(Clone, Copy, Debug, PartialEq, Eq, Structural)]
pub struct Timestamp {
    pub year: u16,
    pub month: u8,
    pub day: u8,
    pub hour: u8,
    pub minute: u8,
}

/// Whether a year is a leap year.
pub open spec fn leap_year(y: int) -> bool {
    y % 4 == 0 && (y % 100 != 0 || y % 400 == 0)
}

/// How many days the given month of the given year has.
pub open spec fn days_in_month(y: int, m: int) -> int {
    if m == 2 {
        if leap_year(y) {
            29
        } else {
            28
        }
    } else if m == 4 || m == 6 || m == 9 || m == 11 {
        30
    } else {
        31
    }
}

/// A well-formed timestamp: a real calendar date with a 4-digit year and a
/// valid wall-clock time.
pub open spec fn timestamp_wf(t: Timestamp) -> bool {
    &&& t.year <= 9999
    &&& 1 <= t.month <= 12
    &&& 1 <= t.day <= days_in_month(t.year as int, t.month as int)
    &&& t.hour < 24
    &&& t.minute < 60
}

/// What a timestamp text of the fixed form `YYYY-MM-DDTHH:MM` denotes:
/// `Some` exactly when the text has that shape and names a real calendar
/// date and wall-clock time, and then the denoted timestamp.
pub open spec fn parse_timestamp_text(s: Seq<char>) -> Option<Timestamp> {
    if s.len() == 16 && is_digit(s[0]) && is_digit(s[1]) && is_digit(s[2]) && is_digit(s[3])
        && s[4] == '-' && is_digit(s[5]) && is_digit(s[6]) && s[7] == '-' && is_digit(s[8])
        && is_digit(s[9]) && s[10] == 'T' && is_digit(s[11]) && is_digit(s[12]) && s[13] == ':'
        && is_digit(s[14]) && is_digit(s[15]) {
        let y = digit_val(s[0]) * 1000 + digit_val(s[1]) * 100 + digit_val(s[2]) * 10 + digit_val(
            s[3],
        );
        let mo = digit_val(s[5]) * 10 + digit_val(s[6]);
        let d = digit_val(s[8]) * 10 + digit_val(s[9]);
        let h = digit_val(s[11]) * 10 + digit_val(s[12]);
        let mi = digit_val(s[14]) * 10 + digit_val(s[15]);
        if 1 <= mo <= 12 && 1 <= d <= days_in_month(y, mo) && h < 24 && mi < 60 {
            Some(
                Timestamp {
                    year: y as u16,
                    month: mo as u8,
                    day: d as u8,
                    hour: h as u8,
                    minute: mi as u8,
                },
            )
        } else {
            None
        }
    } else {
        None
    }
}

/// Parses a timestamp text of the fixed form `YYYY-MM-DDTHH:MM`.  Any text
/// of another shape, or one that names no real calendar date or wall-clock
/// time, fails with `TimeParseError`.
pub fn parse_timestamp(s: &str) -> (r: Result<Timestamp, WeatherError>)
    ensures
        match parse_timestamp_text(s@) {
            Some(t) => r == Ok::<Timestamp, WeatherError>(t),
            None => r == Err::<Timestamp, WeatherError>(WeatherError::TimeParseError),
        },
{
    if s.unicode_len() != 16 {
        return Err(WeatherError::TimeParseError);
    }
    let mut digits: [u8; 16] = [0;16];
    let mut i: usize = 0;
    while i < 16
        invariant
            s@.len() == 16,
            i <= 16,
            forall|j: int|
                0 <= j < i ==> #[trigger] digits@[j] == if is_digit(s@[j]) {
                    digit_val(s@[j])
                } else {
                    10int
                },
        decreases 16 - i,
    {
        let c = s.get_char(i);
        let v: u8 = if '0' <= c && c <= '9' {
            digit_value(c)
        } else {
            10
        };
        digits[i] = v;
        i = i + 1;
    }
    if digits[0] > 9 || digits[1] > 9 || digits[2] > 9 || digits[3] > 9 || digits[5] > 9
        || digits[6] > 9 || digits[8] > 9 || digits[9] > 9 || digits[11] > 9 || digits[12] > 9
        || digits[14] > 9 || digits[15] > 9 {
        return Err(WeatherError::TimeParseError);
    }
    if s.get_char(4) != '-' || s.get_char(7) != '-' || s.get_char(10) != 'T' || s.get_char(13)
        != ':' {
        return Err(WeatherError::TimeParseError);
    }
    let y: u16 = digits[0] as u16 * 1000 + digits[1] as u16 * 100 + digits[2] as u16 * 10
        + digits[3] as u16;
    let mo: u8 = digits[5] * 10 + digits[6];
    let d: u8 = digits[8] * 10 + digits[9];
    let h: u8 = digits[11] * 10 + digits[12];
    let mi: u8 = digits[14] * 10 + digits[15];
    if 1 <= mo && mo <= 12 && 1 <= d && d <= days_in_month_count(y, mo) && h < 24 && mi < 60 {
        Ok(Timestamp { year: y, month: mo, day: d, hour: h, minute: mi })
    } else {
        Err(WeatherError::TimeParseError)
    }
}

/// How many days the given month of the given year has.
pub fn days_in_month_count(y: u16, mo: u8) -> (r: u8)
    ensures
        r == days_in_month(y as int, mo as int),
{
    if mo == 2 {
        if y % 4 == 0 && (y % 100 != 0 || y % 400 == 0) {
            29
        } else {
            28
        }
    } else if mo == 4 || mo == 6 || mo == 9 || mo == 11 {
        30
    } else {
        31
    }
}

/// The hour on the 12-hour clock that belongs to an hour of the day.
pub open spec fn hour_on_12_clock(h: int) -> int {
    if h == 0 {
        12
    } else if h <= 12 {
        h
    } else {
        h - 12
    }
}

/// The morning/afternoon marker that belongs to an hour of the day.
pub open spec fn am_pm_text(h: int) -> Seq<char> {
    if h < 12 {
        "AM"@
    } else {
        "PM"@
    }
}

/// The abbreviated name of a month.
pub open spec fn month_abbrev(m: int) -> Seq<char> {
    if m == 1 {
        "Jan"@
    } else if m == 2 {
        "Feb"@
    } else if m == 3 {
        "Mar"@
    } else if m == 4 {
        "Apr"@
    } else if m == 5 {
        "May"@
    } else if m == 6 {
        "Jun"@
    } else if m == 7 {
        "Jul"@
    } else if m == 8 {
        "Aug"@
    } else if m == 9 {
        "Sep"@
    } else if m == 10 {
        "Oct"@
    } else if m == 11 {
        "Nov"@
    } else {
        "Dec"@
    }
}

/// A number of one or two digits, spelled without a leading zero.
pub open spec fn unpadded_text(n: int) -> Seq<char> {
    if n < 10 {
        seq![digit_char(n)]
    } else {
        seq![digit_char(n / 10), digit_char(n % 10)]
    }
}

/// A year spelled as exactly four digits.
pub open spec fn four_digit_text(y: int) -> Seq<char> {
    seq![
        digit_char(y / 1000 % 10),
        digit_char(y / 100 % 10),
        digit_char(y / 10 % 10),
        digit_char(y % 10),
    ]
}

/// The human-readable rendering of a timestamp: the 12-hour hour with no
/// leading zero, the AM/PM marker, "on", the abbreviated month name, the
/// day with no leading zero, and the 4-digit year.
pub open spec fn format_timestamp_text(t: Timestamp) -> Seq<char> {
    unpadded_text(hour_on_12_clock(t.hour as int)) + " "@ + am_pm_text(t.hour as int) + " on "@
        + month_abbrev(t.month as int) + " "@ + unpadded_text(t.day as int) + ", "@
        + four_digit_text(t.year as int)
}

/// The abbreviated name of a month.
pub fn month_text(m: u8) -> (r: &'static str)
    requires
        1 <= m <= 12,
    ensures
        r@ == month_abbrev(m as int),
{
    match m {
        1 => "Jan",
        2 => "Feb",
        3 => "Mar",
        4 => "Apr",
        5 => "May",
        6 => "Jun",
        7 => "Jul",
        8 => "Aug",
        9 => "Sep",
        10 => "Oct",
        11 => "Nov",
        _ => "Dec",
    }
}

/// Appends a number of one or two digits, spelled without a leading zero.
fn append_unpadded(out: &mut String, n: u8)
    requires
        n <= 99,
    ensures
        final(out)@ == old(out)@ + unpadded_text(n as int),
{
    if n < 10 {
        out.append(digit_text(n));
    } else {
        out.append(digit_text(n / 10));
        out.append(digit_text(n % 10));
        proof {
            assert(old(out)@ + seq![digit_char(n as int / 10)] + seq![digit_char(n as int % 10)]
                =~= old(out)@ + unpadded_text(n as int));
        }
    }
}

/// Renders a timestamp as a human-readable text, e.g. `2 PM on Mar 15, 2024`.
pub fn format_timestamp(t: &Timestamp) -> (r: String)
    requires
        timestamp_wf(*t),
    ensures
        r@ == format_timestamp_text(*t),
{
    let mut out = String::new();
    let h12: u8 = if t.hour == 0 {
        12
    } else if t.hour <= 12 {
        t.hour
    } else {
        t.hour - 12
    };
    append_unpadded(&mut out, h12);
    out.append(" ");
    out.append(if t.hour < 12 { "AM" } else { "PM" });
    out.append(" on ");
    out.append(month_text(t.month));
    out.append(" ");
    append_unpadded(&mut out, t.day);
    out.append(", ");
    out.append(digit_text((t.year / 1000 % 10) as u8));
    out.append(digit_text((t.year / 100 % 10) as u8));
    out.append(digit_text((t.year / 10 % 10) as u8));
    out.append(digit_text((t.year % 10) as u8));
    proof {
        assert(out@ =~= format_timestamp_text(*t));
    }
    out
}

/// Parses a timestamp text and renders it as a human-readable text: the one
/// transform an hourly entry's time undergoes on its way to the screen.
pub fn format_time_text(s: &str) -> (r: Result<String, WeatherError>)
    ensures
        match parse_timestamp_text(s@) {
            Some(t) => r matches Ok(out) && out@ == format_timestamp_text(t),
            None => r == Err::<String, WeatherError>(WeatherError::TimeParseError),
        },
{
    match parse_timestamp(s) {
        Ok(t) => Ok(format_timestamp(&t)),
        Err(e) => Err(e),
    }
}

} // verus!
