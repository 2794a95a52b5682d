//! Tests of the timer state machine: construction, the commands, and the
//! tick with its phase transitions and history writing.

use pomodoro_core::app_data::AppData;
use pomodoro_core::app_data::HistoryDay;
use pomodoro_core::app_data::HistoryRecord;
use pomodoro_core::app_data::Phase;
use pomodoro_core::app_data::Settings;
use pomodoro_core::clock::TimerClock;
use pomodoro_core::errors::AppResult;
use pomodoro_core::notification::Notifier;
use pomodoro_core::runtime::TimerRuntime;

/// A fixed time source, so tests run the same at any hour.
struct FixedClock {
    today: String,
    now: String,
    week_from: String,
    week_to: String,
}

impl FixedClock {
    /// A fixed clock whose week range covers today alone.
    fn new(today: &str, now: &str) -> Self {
        Self {
            today: today.to_string(),
            now: now.to_string(),
            week_from: today.to_string(),
            week_to: today.to_string(),
        }
    }

    /// Override the inclusive week range.
    fn with_week_range(mut self, from: &str, to: &str) -> Self {
        self.week_from = from.to_string();
        self.week_to = to.to_string();
        self
    }
}

impl TimerClock for FixedClock {
    fn today_date(&self) -> String {
        self.today.clone()
    }

    fn now_hhmm(&self) -> String {
        self.now.clone()
    }

    fn current_week_range(&self) -> (String, String) {
        (self.week_from.clone(), self.week_to.clone())
    }
}

/// A notifier that swallows everything.
struct NoopNotifier;

impl Notifier for NoopNotifier {
    fn notify(&self, _title: &str, _body: &str) -> AppResult<()> {
        Ok(())
    }
}

/// A tick reaching zero writes a record and switches to the short break.
#[test]
fn tick_completes_work_and_switches_to_break() {
    let clock = FixedClock::new("2025-01-01", "09:00").with_week_range("2025-01-01", "2025-01-07");
    let notifier = NoopNotifier;

    let mut data = AppData::default();
    data.settings.pomodoro = 1;
    data.settings.short_break = 1;
    data.settings.long_break = 1;
    data.settings.long_break_interval = 4;
    data.tags = vec!["学习".to_string()];

    let mut runtime = TimerRuntime::new(&data.settings, &data.tags, &clock);
    runtime.start(&data.settings, &clock);
    runtime.remaining_seconds = 1;

    let out = runtime.tick(&mut data, &clock, &notifier).unwrap();
    assert!(out.history_changed);
    assert!(out.phase_ended);
    assert!(out.work_completed_event.is_some());
    assert_eq!(runtime.phase, Phase::ShortBreak);
    assert!(runtime.is_running);
    assert_eq!(runtime.remaining_seconds, (data.settings.short_break as u64) * 60);
    assert_eq!(data.history.len(), 1);
    assert_eq!(data.history[0].records.len(), 1);
}

/// A phase-end tick reports the phase change.
#[test]
fn tick_phase_end_hits_tracing_info_when_enabled() {
    let clock = FixedClock::new("2025-01-01", "09:00").with_week_range("2025-01-01", "2025-01-07");
    let notifier = NoopNotifier;

    let mut data = AppData::default();
    data.settings.pomodoro = 1;
    data.settings.short_break = 1;
    data.tags = vec!["学习".to_string()];

    let mut runtime = TimerRuntime::new(&data.settings, &data.tags, &clock);
    runtime.start(&data.settings, &clock);
    runtime.remaining_seconds = 1;

    let out = runtime.tick(&mut data, &clock, &notifier).unwrap();
    assert!(out.phase_ended);
}

/// A tick while paused changes nothing, not even the countdown.
#[test]
fn tick_is_noop_when_not_running() {
    let clock = FixedClock::new("2025-01-01", "09:00");
    let notifier = NoopNotifier;
    let mut data = AppData::default();

    let mut runtime = TimerRuntime::new(&data.settings, &data.tags, &clock);
    runtime.remaining_seconds = 10;
    runtime.is_running = false;

    let out = runtime.tick(&mut data, &clock, &notifier).unwrap();
    assert!(!out.history_changed);
    assert!(!out.phase_ended);
    assert!(!out.work_auto_started);
    assert!(out.work_completed_event.is_none());
    assert_eq!(runtime.remaining_seconds, 10);
}

/// A running tick above zero only counts down.
#[test]
fn tick_decrements_without_ending_phase() {
    let clock = FixedClock::new("2025-01-01", "09:00");
    let notifier = NoopNotifier;
    let mut data = AppData::default();

    let mut runtime = TimerRuntime::new(&data.settings, &data.tags, &clock);
    runtime.start(&data.settings, &clock);
    runtime.remaining_seconds = 2;

    let out = runtime.tick(&mut data, &clock, &notifier).unwrap();
    assert!(!out.history_changed);
    assert!(!out.phase_ended);
    assert_eq!(runtime.remaining_seconds, 1);
}

/// A running work phase with missing start stamps has them filled in.
#[test]
fn with_normalized_tag_fills_started_at_when_running() {
    let clock = FixedClock::new("2025-01-01", "09:00");
    let mut runtime = TimerRuntime::default();
    runtime.phase = Phase::Work;
    runtime.is_running = true;
    runtime.current_tag = "学习".to_string();

    runtime = runtime.with_normalized_tag(&clock);
    assert_eq!(runtime.work_started_date.as_deref(), Some("2025-01-01"));
    assert_eq!(runtime.work_started_time.as_deref(), Some("09:00"));
}

/// The day's total reaching a multiple of the interval brings the long
/// break.
#[test]
fn tick_uses_long_break_interval() {
    let clock = FixedClock::new("2025-01-01", "09:00").with_week_range("2025-01-01", "2025-01-07");
    let notifier = NoopNotifier;

    let mut data = AppData::default();
    data.settings.pomodoro = 1;
    data.settings.short_break = 1;
    data.settings.long_break = 2;
    data.settings.long_break_interval = 2;
    data.tags = vec!["A".to_string()];

    data.history.push(HistoryDay {
        date: "2025-01-01".to_string(),
        records: vec![HistoryRecord {
            tag: "A".to_string(),
            start_time: "08:00".to_string(),
            end_time: Some("08:25".to_string()),
            duration: 25,
            phase: Phase::Work,
            remark: String::new(),
        }],
    });

    let mut runtime = TimerRuntime::new(&data.settings, &data.tags, &clock);
    runtime.start(&data.settings, &clock);
    runtime.remaining_seconds = 1;

    let _ = runtime.tick(&mut data, &clock, &notifier).unwrap();
    assert_eq!(runtime.phase, Phase::LongBreak);
    assert!(runtime.is_running);
    assert_eq!(runtime.remaining_seconds, (data.settings.long_break as u64) * 60);
}

/// A break ending without auto-continue leaves the work phase stopped.
#[test]
fn break_end_does_not_auto_start_work_when_disabled() {
    let clock = FixedClock::new("2025-01-01", "09:00").with_week_range("2025-01-01", "2025-01-07");
    let notifier = NoopNotifier;

    let mut data = AppData::default();
    data.settings.short_break = 1;
    data.settings.auto_continue_enabled = false;
    data.tags = vec!["A".to_string()];

    let mut runtime = TimerRuntime::new(&data.settings, &data.tags, &clock);
    runtime.phase = Phase::ShortBreak;
    runtime.remaining_seconds = 1;
    runtime.is_running = true;

    let out = runtime.tick(&mut data, &clock, &notifier).unwrap();
    assert!(out.phase_ended);
    assert_eq!(runtime.phase, Phase::Work);
    assert!(!runtime.is_running);
}

/// With auto-continue armed, a break ending starts the next work phase.
#[test]
fn break_end_auto_starts_work_when_enabled_and_remaining() {
    let clock = FixedClock::new("2025-01-01", "09:00").with_week_range("2025-01-01", "2025-01-07");
    let notifier = NoopNotifier;

    let mut data = AppData::default();
    data.settings.pomodoro = 1;
    data.settings.short_break = 1;
    data.settings.auto_continue_enabled = true;
    data.settings.auto_continue_pomodoros = 2;
    data.tags = vec!["A".to_string()];

    let mut runtime = TimerRuntime::new(&data.settings, &data.tags, &clock);
    runtime.start(&data.settings, &clock);

    runtime.remaining_seconds = 1;
    let _ = runtime.tick(&mut data, &clock, &notifier).unwrap();
    assert_eq!(runtime.phase, Phase::ShortBreak);
    assert!(runtime.is_running);

    runtime.remaining_seconds = 1;
    let out = runtime.tick(&mut data, &clock, &notifier).unwrap();
    assert!(out.phase_ended);
    assert!(out.work_auto_started);
    assert_eq!(runtime.phase, Phase::Work);
    assert!(runtime.is_running);
}

/// A fresh runtime: work phase, full duration, the default tag when the
/// tag list is empty.
#[test]
fn timer_runtime_new_initializes_with_defaults_and_tag_fallback() {
    let clock = FixedClock::new("2025-01-01", "09:00");
    let settings = Settings { pomodoro: 25, ..Settings::default() };

    let runtime = TimerRuntime::new(&settings, &Vec::new(), &clock);
    assert_eq!(runtime.phase, Phase::Work);
    assert_eq!(runtime.remaining_seconds, 25 * 60);
    assert!(!runtime.is_running);
    assert_eq!(runtime.current_tag, "工作");
    assert!(!runtime.blacklist_locked());
}

/// Starting twice is a no-op; the first start of a work phase locks the
/// blacklist.
#[test]
fn start_is_idempotent_and_locks_blacklist_on_first_work_start() {
    let clock = FixedClock::new("2025-01-01", "09:00");
    let mut runtime = TimerRuntime::new(&Settings::default(), &vec!["学习".to_string()], &clock);

    runtime.start(&Settings::default(), &clock);
    assert!(runtime.is_running);
    assert!(runtime.blacklist_locked());

    runtime.start(&Settings::default(), &clock);
    assert!(runtime.is_running);
    assert!(runtime.blacklist_locked());
}

/// Pausing stops the countdown.
#[test]
fn pause_stops_running() {
    let clock = FixedClock::new("2025-01-01", "09:00");
    let mut runtime = TimerRuntime::new(&Settings::default(), &vec!["学习".to_string()], &clock);
    runtime.start(&Settings::default(), &clock);
    runtime.pause();
    assert!(!runtime.is_running);
}

/// Resetting returns to a full, stopped, unlocked work phase.
#[test]
fn reset_restores_initial_state() {
    let clock = FixedClock::new("2025-01-01", "09:00");
    let mut settings = Settings::default();
    settings.pomodoro = 10;
    settings.short_break = 1;
    settings.long_break = 1;

    let mut runtime = TimerRuntime::new(&settings, &vec!["学习".to_string()], &clock);
    runtime.start(&settings, &clock);
    runtime.remaining_seconds = 3;
    assert!(runtime.blacklist_locked());

    runtime.reset(&settings);
    assert_eq!(runtime.phase, Phase::Work);
    assert_eq!(runtime.remaining_seconds, 10 * 60);
    assert!(!runtime.is_running);
    assert!(!runtime.blacklist_locked());
}

/// Skipping moves to the next phase without history and unlocks.
#[test]
fn skip_switches_phase_and_unlocks_blacklist() {
    let clock = FixedClock::new("2025-01-01", "09:00");
    let mut settings = Settings::default();
    settings.pomodoro = 1;
    settings.short_break = 2;
    settings.long_break = 3;
    settings.long_break_interval = 4;

    let mut runtime = TimerRuntime::new(&settings, &vec!["学习".to_string()], &clock);
    runtime.start(&settings, &clock);
    assert!(runtime.blacklist_locked());

    runtime.skip(&settings, 1);
    assert_eq!(runtime.phase, Phase::ShortBreak);
    assert_eq!(runtime.remaining_seconds, 2 * 60);
    assert!(!runtime.is_running);
    assert!(!runtime.blacklist_locked());
}

/// A blank tag is normalized to the default tag.
#[test]
fn set_current_tag_normalizes_blank_tag() {
    let clock = FixedClock::new("2025-01-01", "09:00");
    let mut runtime = TimerRuntime::new(&Settings::default(), &vec!["学习".to_string()], &clock);
    runtime.set_current_tag("   ".to_string(), &clock);
    assert_eq!(runtime.current_tag, "工作");
}

/// A snapshot carries the runtime fields, the statistics and the goal
/// progress.
#[test]
fn snapshot_with_clock_includes_stats_and_goal_progress() {
    let clock = FixedClock::new("2025-01-01", "09:00").with_week_range("2025-01-01", "2025-01-07");
    let mut data = AppData::default();
    data.settings.daily_goal = 3;
    data.settings.weekly_goal = 10;
    data.tags = vec!["学习".to_string()];
    data.history = vec![HistoryDay {
        date: "2025-01-01".to_string(),
        records: vec![
            HistoryRecord {
                tag: "学习".to_string(),
                start_time: "08:00".to_string(),
                end_time: Some("08:25".to_string()),
                duration: 25,
                phase: Phase::Work,
                remark: String::new(),
            },
            HistoryRecord {
                tag: "学习".to_string(),
                start_time: "08:30".to_string(),
                end_time: Some("08:55".to_string()),
                duration: 25,
                phase: Phase::ShortBreak,
                remark: String::new(),
            },
        ],
    }];

    let mut runtime = TimerRuntime::new(&data.settings, &data.tags, &clock);
    runtime.start(&data.settings, &clock);

    let snapshot = runtime.snapshot_with_clock(&data, &clock);
    assert_eq!(snapshot.phase, Phase::Work);
    assert!(snapshot.is_running);
    assert_eq!(snapshot.current_tag, "学习");
    assert!(snapshot.blacklist_locked);
    assert_eq!(snapshot.settings.daily_goal, 3);
    assert_eq!(snapshot.today_stats.total, 1);
    assert_eq!(snapshot.week_stats.total, 1);
    assert_eq!(snapshot.goal_progress.daily_goal, 3);
    assert_eq!(snapshot.goal_progress.daily_completed, 1);
    assert_eq!(snapshot.goal_progress.weekly_goal, 10);
    assert_eq!(snapshot.goal_progress.weekly_completed, 1);
}

/// The completed record carries the captured start stamp and the tag, and
/// the event locates it.
#[test]
fn tick_event_locates_the_written_record() {
    let clock = FixedClock::new("2025-01-02", "09:01").with_week_range("2024-12-30", "2025-01-05");
    let notifier = NoopNotifier;

    let mut data = AppData::default();
    data.settings.pomodoro = 1;
    data.tags = vec!["写作".to_string()];

    let mut runtime = TimerRuntime::new(&data.settings, &data.tags, &clock);
    runtime.start(&data.settings, &clock);
    runtime.remaining_seconds = 1;

    let out = runtime.tick(&mut data, &clock, &notifier).unwrap();
    let ev = out.work_completed_event.expect("事件必须存在");
    assert_eq!(ev.date, "2025-01-02");
    assert_eq!(ev.record_index, 0);
    assert_eq!(ev.record.tag, "写作");
    assert_eq!(ev.record.start_time, "09:01");
    assert_eq!(ev.record.end_time.as_deref(), Some("09:01"));
    assert_eq!(ev.record.duration, 1);
    assert_eq!(ev.record.phase, Phase::Work);
    assert_eq!(ev.record.remark, "");
    assert_eq!(data.history[0].date, "2025-01-02");
    assert_eq!(data.history[0].records.len(), 1);
}

/// The seconds spent in a started work session, and zero outside one.
#[test]
fn focused_seconds_counts_elapsed_work_time() {
    let clock = FixedClock::new("2025-01-01", "09:00");
    let mut settings = Settings::default();
    settings.pomodoro = 2;
    let mut runtime = TimerRuntime::new(&settings, &vec!["学习".to_string()], &clock);
    assert_eq!(runtime.focused_seconds(&settings), 0);

    runtime.start(&settings, &clock);
    runtime.remaining_seconds = 90;
    assert_eq!(runtime.focused_seconds(&settings), 30);

    runtime.reset(&settings);
    assert_eq!(runtime.focused_seconds(&settings), 0);
}
