//! Time sources. The engine never reads the wall clock itself: every
//! operation takes a `TimerClock`, so the state machine stays deterministic
//! and testable. `SystemClock` is the production source backed by chrono.

use vstd::prelude::*;

verus! {

/// A source of the current date and time, handed into every state-mutating
/// operation. Implementations outside this crate (a fixed clock in tests,
/// the system clock in production) decide what the strings hold; the engine
/// states what it does for whatever comes back.
pub trait TimerClock {
    /// Today's date as `YYYY-MM-DD`.
    fn today_date(&self) -> String;

    /// The current time of day as `HH:mm`.
    fn now_hhmm(&self) -> String;

    /// The current week as an inclusive `(from, to)` pair of `YYYY-MM-DD`
    /// dates, starting on Monday and spanning seven days.
    fn current_week_range(&self) -> (String, String);
}

/// The production time source, reading the local wall clock.
pub struct SystemClock;

/// Relies on chrono's `Local::now` and `format`: the local date, rendered
/// as `YYYY-MM-DD`. The result depends on the wall clock, so nothing is
/// promised of it.
#[verifier::external_body]
fn chrono_local_date() -> String {
    chrono::Local::now().format("%Y-%m-%d").to_string()
}

/// Relies on chrono's `Local::now` and `format`: the local time of day,
/// rendered as `HH:mm`. The result depends on the wall clock, so nothing
/// is promised of it.
#[verifier::external_body]
fn chrono_local_hhmm() -> String {
    chrono::Local::now().format("%H:%M").to_string()
}

/// Relies on chrono's `Local::now`, `Datelike::weekday`,
/// `Weekday::num_days_from_monday` and `TimeDelta` arithmetic: the
/// Monday-start week around today, as two `YYYY-MM-DD` dates seven days
/// apart. The result depends on the wall clock, so nothing is promised of
/// it.
#[verifier::external_body]
fn chrono_local_week_range() -> (String, String) {
    let today = chrono::Local::now().date_naive();
    let offset_days = i64::from(chrono::Datelike::weekday(&today).num_days_from_monday());
    let from = today - chrono::Duration::days(offset_days);
    let to = from + chrono::Duration::days(6);
    (from.format("%Y-%m-%d").to_string(), to.format("%Y-%m-%d").to_string())
}

impl TimerClock for SystemClock {
    /// Today's date from the local wall clock.
    fn today_date(&self) -> String {
        chrono_local_date()
    }

    /// The local time of day.
    fn now_hhmm(&self) -> String {
        chrono_local_hhmm()
    }

    /// The Monday-start week around today.
    fn current_week_range(&self) -> (String, String) {
        chrono_local_week_range()
    }
}

} // verus!
