//! Tests of the combo streak: the grace window, interruption resets and
//! the invariant error on a malformed clock.

use pomodoro_core::app_data::AppData;
use pomodoro_core::app_data::Phase;
use pomodoro_core::app_data::Settings;
use pomodoro_core::clock::TimerClock;
use pomodoro_core::combo::ComboRuntime;
use pomodoro_core::errors::AppError;

/// A fixed time source.
struct FixedClock {
    today: String,
    now: String,
}

impl FixedClock {
    fn new(today: &str, now: &str) -> Self {
        Self { today: today.to_string(), now: now.to_string() }
    }
}

impl TimerClock for FixedClock {
    fn today_date(&self) -> String {
        self.today.clone()
    }

    fn now_hhmm(&self) -> String {
        self.now.clone()
    }

    fn current_week_range(&self) -> (String, String) {
        (self.today.clone(), self.today.clone())
    }
}

/// Starting within the break plus five minutes continues the streak; a
/// later start restarts it at one.
#[test]
fn combo_increments_inside_window_and_resets_outside() {
    let settings = Settings { short_break: 5, ..Settings::default() };
    let mut data = AppData::default();
    let mut combo = ComboRuntime::new();

    // First completion at 09:00: streak becomes 1, window is 5 + 5 minutes.
    let c = combo
        .on_work_completed(&mut data, &FixedClock::new("2025-01-01", "09:00"), Phase::ShortBreak, &settings)
        .unwrap();
    assert_eq!(c, 1);
    assert_eq!(data.current_combo, 1);

    // Started at 09:08, inside the window: the next completion continues.
    combo.on_work_started(&FixedClock::new("2025-01-01", "09:08")).unwrap();
    let c = combo
        .on_work_completed(&mut data, &FixedClock::new("2025-01-01", "09:33"), Phase::ShortBreak, &settings)
        .unwrap();
    assert_eq!(c, 2);

    // Started at 09:50, more than ten minutes after 09:33: the streak
    // restarts at one.
    combo.on_work_started(&FixedClock::new("2025-01-01", "09:50")).unwrap();
    let c = combo
        .on_work_completed(&mut data, &FixedClock::new("2025-01-01", "10:15"), Phase::ShortBreak, &settings)
        .unwrap();
    assert_eq!(c, 1);
    assert_eq!(data.current_combo, 1);
}

/// The window carries across midnight: four minutes into the next day is
/// still inside it.
#[test]
fn combo_window_spans_midnight() {
    let settings = Settings { short_break: 5, ..Settings::default() };
    let mut data = AppData::default();
    let mut combo = ComboRuntime::new();

    combo
        .on_work_completed(&mut data, &FixedClock::new("2025-01-31", "23:58"), Phase::ShortBreak, &settings)
        .unwrap();
    combo.on_work_started(&FixedClock::new("2025-02-01", "00:02")).unwrap();
    let c = combo
        .on_work_completed(&mut data, &FixedClock::new("2025-02-01", "00:27"), Phase::ShortBreak, &settings)
        .unwrap();
    assert_eq!(c, 2);
}

/// An interruption clears the streak and the timing memory.
#[test]
fn combo_interruption_resets_to_zero() {
    let settings = Settings::default();
    let mut data = AppData::default();
    let mut combo = ComboRuntime::new();

    combo
        .on_work_completed(&mut data, &FixedClock::new("2025-01-01", "09:00"), Phase::ShortBreak, &settings)
        .unwrap();
    assert_eq!(data.current_combo, 1);

    combo.on_interrupted(&mut data);
    assert_eq!(data.current_combo, 0);

    // The next completion starts over at one.
    let c = combo
        .on_work_completed(&mut data, &FixedClock::new("2025-01-01", "10:00"), Phase::ShortBreak, &settings)
        .unwrap();
    assert_eq!(c, 1);
}

/// A clock handing back a malformed date is an invariant error.
#[test]
fn combo_rejects_malformed_clock_strings() {
    let mut combo = ComboRuntime::new();
    let err = combo.on_work_started(&FixedClock::new("2025/01/01", "09:00")).unwrap_err();
    assert!(matches!(err, AppError::Invariant(_)));

    let mut data = AppData::default();
    let err = combo
        .on_work_completed(
            &mut data,
            &FixedClock::new("2025-01-01", "9am"),
            Phase::ShortBreak,
            &Settings::default(),
        )
        .unwrap_err();
    assert!(matches!(err, AppError::Invariant(_)));
    // The streak update itself still happened.
    assert_eq!(data.current_combo, 1);
}

/// The first completion without any prior one starts the streak at one
/// even when the start was never observed.
#[test]
fn combo_first_completion_starts_at_one() {
    let settings = Settings::default();
    let mut data = AppData::default();
    let mut combo = ComboRuntime::new();

    combo.on_work_started(&FixedClock::new("2025-01-01", "08:30")).unwrap();
    let c = combo
        .on_work_completed(&mut data, &FixedClock::new("2025-01-01", "08:55"), Phase::LongBreak, &settings)
        .unwrap();
    assert_eq!(c, 1);
    assert_eq!(combo.last_expected_break_minutes, settings.long_break);
}
