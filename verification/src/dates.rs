//! Verified calendar helpers: parsing of `YYYY-MM-DD` dates and `HH:mm`
//! times, and a day-number model so that minute differences can be taken
//! across day boundaries.

use vstd::prelude::*;
use vstd::string::StrSliceExecFns;

use crate::strutil::digit_value;
use crate::strutil::is_digit;

verus! {

/// Whether a year is a leap year of the Gregorian calendar.
pub open spec fn is_leap_year(y: int) -> bool {
    (y % 4 == 0 && y % 100 != 0) || y % 400 == 0
}

/// The number of days of a month.
pub open spec fn days_in_month(y: int, m: int) -> int {
    if m == 2 {
        if is_leap_year(y) {
            29
        } else {
            28
        }
    } else if m == 4 || m == 6 || m == 9 || m == 11 {
        30
    } else {
        31
    }
}

/// Whether year, month and day form a valid calendar date with a four-digit
/// year.
pub open spec fn valid_ymd(y: int, m: int, d: int) -> bool {
    0 <= y <= 9999 && 1 <= m <= 12 && 1 <= d <= days_in_month(y, m)
}

/// The index of a calendar day on a continuous day count, so that two dates
/// lie `day_number(a) - day_number(b)` days apart. Uses the standard
/// civil-calendar formula over 400-year eras, shifted so that every
/// intermediate value is nonnegative for years from 0 to 9999.
pub open spec fn day_number(y: int, m: int, d: int) -> int {
    let yy = if m <= 2 {
        y + 399
    } else {
        y + 400
    };
    let era = yy / 400;
    let yoe = yy % 400;
    let mp = if m <= 2 {
        m + 9
    } else {
        m - 3
    };
    let doy = (153 * mp + 2) / 5 + d - 1;
    let doe = yoe * 365 + yoe / 4 - yoe / 100 + doy;
    era * 146097 + doe
}

/// The day number, computed.
pub fn day_number_exec(y: u32, m: u32, d: u32) -> (r: u64)
    requires
        valid_ymd(y as int, m as int, d as int),
    ensures
        r == day_number(y as int, m as int, d as int),
{
    let yy: u64 = if m <= 2 {
        y as u64 + 399
    } else {
        y as u64 + 400
    };
    let era: u64 = yy / 400;
    let yoe: u64 = yy % 400;
    let mp: u64 = if m <= 2 {
        m as u64 + 9
    } else {
        m as u64 - 3
    };
    let doy: u64 = (153 * mp + 2) / 5 + d as u64 - 1;
    let doe: u64 = yoe * 365 + yoe / 4 - yoe / 100 + doy;
    era * 146097 + doe
}

/// Whether a string has the shape `YYYY-MM-DD` with decimal digits.
pub open spec fn ymd_shape_ok(s: Seq<char>) -> bool {
    &&& s.len() == 10
    &&& is_digit(s[0]) && is_digit(s[1]) && is_digit(s[2]) && is_digit(s[3])
    &&& s[4] == '-'
    &&& is_digit(s[5]) && is_digit(s[6])
    &&& s[7] == '-'
    &&& is_digit(s[8]) && is_digit(s[9])
}

/// The year spelled by a `YYYY-MM-DD` string.
pub open spec fn ymd_year(s: Seq<char>) -> int {
    digit_value(s[0]) * 1000 + digit_value(s[1]) * 100 + digit_value(s[2]) * 10 + digit_value(s[3])
}

/// The month spelled by a `YYYY-MM-DD` string.
pub open spec fn ymd_month(s: Seq<char>) -> int {
    digit_value(s[5]) * 10 + digit_value(s[6])
}

/// The day spelled by a `YYYY-MM-DD` string.
pub open spec fn ymd_day(s: Seq<char>) -> int {
    digit_value(s[8]) * 10 + digit_value(s[9])
}

/// Whether a string spells a valid `YYYY-MM-DD` calendar date.
pub open spec fn ymd_ok(s: Seq<char>) -> bool {
    ymd_shape_ok(s) && valid_ymd(ymd_year(s), ymd_month(s), ymd_day(s))
}

/// The value of one decimal digit character of a string.
fn digit_at(s: &str, i: usize) -> (r: Option<u32>)
    requires
        i < s@.len(),
    ensures
        r matches Some(v) ==> is_digit(s@[i as int]) && v == digit_value(s@[i as int]) && v < 10,
        r is None <==> !is_digit(s@[i as int]),
{
    let c = s.get_char(i);
    if '0' <= c && c <= '9' {
        Some(c as u32 - 48)
    } else {
        None
    }
}

/// Parse a `YYYY-MM-DD` string into year, month and day. `None` when the
/// shape is wrong or the date does not exist in the calendar.
pub fn parse_ymd(s: &str) -> (r: Option<(u32, u32, u32)>)
    ensures
        r matches Some((y, m, d)) ==> ymd_ok(s@) && y == ymd_year(s@) && m == ymd_month(s@) && d
            == ymd_day(s@),
        (r is None) <==> !ymd_ok(s@),
{
    if s.unicode_len() != 10 {
        return None;
    }
    if !(s.get_char(4) == '-' && s.get_char(7) == '-') {
        return None;
    }
    let (d0, d1, d2, d3) = match (digit_at(s, 0), digit_at(s, 1), digit_at(s, 2), digit_at(s, 3)) {
        (Some(a), Some(b), Some(c), Some(d)) => (a, b, c, d),
        _ => {
            return None;
        },
    };
    let (m0, m1) = match (digit_at(s, 5), digit_at(s, 6)) {
        (Some(a), Some(b)) => (a, b),
        _ => {
            return None;
        },
    };
    let (e0, e1) = match (digit_at(s, 8), digit_at(s, 9)) {
        (Some(a), Some(b)) => (a, b),
        _ => {
            return None;
        },
    };
    let y = d0 * 1000 + d1 * 100 + d2 * 10 + d3;
    let m = m0 * 10 + m1;
    let d = e0 * 10 + e1;
    if m < 1 || m > 12 {
        return None;
    }
    let max_day = days_in_month_exec(y, m);
    if d < 1 || d > max_day {
        return None;
    }
    Some((y, m, d))
}

/// The number of days of a month, computed.
fn days_in_month_exec(y: u32, m: u32) -> (r: u32)
    requires
        1 <= m <= 12,
    ensures
        r == days_in_month(y as int, m as int),
{
    if m == 2 {
        if (y % 4 == 0 && y % 100 != 0) || y % 400 == 0 {
            29
        } else {
            28
        }
    } else if m == 4 || m == 6 || m == 9 || m == 11 {
        30
    } else {
        31
    }
}

/// Whether a string has the shape `HH:mm` and spells a time of day.
pub open spec fn hhmm_ok(s: Seq<char>) -> bool {
    &&& s.len() == 5
    &&& is_digit(s[0]) && is_digit(s[1])
    &&& s[2] == ':'
    &&& is_digit(s[3]) && is_digit(s[4])
    &&& 0 <= hhmm_hour(s) <= 23
    &&& 0 <= hhmm_minute(s) <= 59
}

/// The hour spelled by an `HH:mm` string.
pub open spec fn hhmm_hour(s: Seq<char>) -> int {
    digit_value(s[0]) * 10 + digit_value(s[1])
}

/// The minute spelled by an `HH:mm` string.
pub open spec fn hhmm_minute(s: Seq<char>) -> int {
    digit_value(s[3]) * 10 + digit_value(s[4])
}

/// Parse an `HH:mm` string into hour and minute. `None` when the shape is
/// wrong or the time is out of range.
pub fn parse_hhmm(s: &str) -> (r: Option<(u32, u32)>)
    ensures
        r matches Some((h, mi)) ==> hhmm_ok(s@) && h == hhmm_hour(s@) && mi == hhmm_minute(s@),
        (r is None) <==> !hhmm_ok(s@),
{
    if s.unicode_len() != 5 {
        return None;
    }
    if s.get_char(2) != ':' {
        return None;
    }
    let (h0, h1) = match (digit_at(s, 0), digit_at(s, 1)) {
        (Some(a), Some(b)) => (a, b),
        _ => {
            return None;
        },
    };
    let (m0, m1) = match (digit_at(s, 3), digit_at(s, 4)) {
        (Some(a), Some(b)) => (a, b),
        _ => {
            return None;
        },
    };
    let h = h0 * 10 + h1;
    let mi = m0 * 10 + m1;
    if h > 23 || mi > 59 {
        return None;
    }
    Some((h, mi))
}

/// The minute stamp of a date and a time of day: minutes on a continuous
/// count, so that two stamps lie their difference in minutes apart.
pub open spec fn minute_stamp(date: Seq<char>, time: Seq<char>) -> int {
    day_number(ymd_year(date), ymd_month(date), ymd_day(date)) * 1440 + hhmm_hour(time) * 60
        + hhmm_minute(time)
}

/// The largest possible minute stamp, for overflow bounds.
pub proof fn lemma_minute_stamp_bounds(date: Seq<char>, time: Seq<char>)
    requires
        ymd_ok(date),
        hhmm_ok(time),
    ensures
        0 <= minute_stamp(date, time) < 0x200000000,
{
}

/// The minute stamp of a parsed date and time, computed.
pub fn minute_stamp_exec(y: u32, m: u32, d: u32, h: u32, mi: u32) -> (r: u64)
    requires
        valid_ymd(y as int, m as int, d as int),
        h <= 23,
        mi <= 59,
    ensures
        r == day_number(y as int, m as int, d as int) * 1440 + h * 60 + mi,
{
    day_number_exec(y, m, d) * 1440 + h as u64 * 60 + mi as u64
}

} // verus!
