//! Tests of the calendar model: strict date and time parsing, and day
//! numbers whose differences count real calendar days.

use pomodoro_core::dates::day_number_exec;
use pomodoro_core::dates::parse_hhmm;
use pomodoro_core::dates::parse_ymd;

/// Well-formed dates parse into their fields; malformed ones do not.
#[test]
fn parse_ymd_accepts_and_rejects_shapes() {
    assert_eq!(parse_ymd("2025-01-31"), Some((2025, 1, 31)));
    assert_eq!(parse_ymd("0000-01-01"), Some((0, 1, 1)));
    assert_eq!(parse_ymd("2025-1-1"), None);
    assert_eq!(parse_ymd("2025/01/01"), None);
    assert_eq!(parse_ymd("2025-00-10"), None);
    assert_eq!(parse_ymd("2025-04-31"), None);
}

/// Leap years follow the Gregorian rule.
#[test]
fn parse_ymd_follows_leap_years() {
    assert!(parse_ymd("2024-02-29").is_some());
    assert!(parse_ymd("2025-02-29").is_none());
    assert!(parse_ymd("2000-02-29").is_some());
    assert!(parse_ymd("1900-02-29").is_none());
}

/// Day-number differences count real calendar days, across month, year
/// and leap boundaries.
#[test]
fn day_numbers_difference_counts_days() {
    assert_eq!(day_number_exec(2024, 3, 1) - day_number_exec(2024, 2, 28), 2);
    assert_eq!(day_number_exec(1900, 3, 1) - day_number_exec(1900, 2, 28), 1);
    assert_eq!(day_number_exec(2025, 1, 1) - day_number_exec(2024, 1, 1), 366);
    assert_eq!(day_number_exec(2026, 1, 1) - day_number_exec(2025, 1, 1), 365);
    assert_eq!(day_number_exec(2024, 1, 1) - day_number_exec(2023, 12, 31), 1);
}

/// Times of day parse within their ranges only.
#[test]
fn parse_hhmm_accepts_and_rejects() {
    assert_eq!(parse_hhmm("00:00"), Some((0, 0)));
    assert_eq!(parse_hhmm("23:59"), Some((23, 59)));
    assert_eq!(parse_hhmm("24:00"), None);
    assert_eq!(parse_hhmm("12:60"), None);
    assert_eq!(parse_hhmm("9:00"), None);
}
