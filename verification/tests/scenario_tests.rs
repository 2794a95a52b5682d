//! End-to-end scenarios driven purely by ticks, plus catalogue and
//! calendar spot checks.

use pomodoro_core::app_data::AppData;
use pomodoro_core::app_data::HistoryDay;
use pomodoro_core::app_data::HistoryRecord;
use pomodoro_core::app_data::Phase;
use pomodoro_core::audio::builtin_audios;
use pomodoro_core::audio::find_audio_by_id;
use pomodoro_core::app_data::CustomAudio;
use pomodoro_core::clock::TimerClock;
use pomodoro_core::events::milestone_reached;
use pomodoro_core::errors::AppResult;
use pomodoro_core::notification::Notifier;
use pomodoro_core::runtime::TimerRuntime;
use pomodoro_core::runtime::next_phase;
use pomodoro_core::runtime::phase_seconds;

/// A fixed time source.
struct FixedClock {
    today: String,
    now: String,
}

impl FixedClock {
    fn new(today: &str, now: &str) -> Self {
        Self { today: today.to_string(), now: now.to_string() }
    }
}

impl TimerClock for FixedClock {
    fn today_date(&self) -> String {
        self.today.clone()
    }

    fn now_hhmm(&self) -> String {
        self.now.clone()
    }

    fn current_week_range(&self) -> (String, String) {
        (self.today.clone(), self.today.clone())
    }
}

/// A notifier that swallows everything.
struct NoopNotifier;

impl Notifier for NoopNotifier {
    fn notify(&self, _title: &str, _body: &str) -> AppResult<()> {
        Ok(())
    }
}

/// With one prior record and an interval of two, the second completion
/// brings the long break at its full length, already running.
#[test]
fn second_completion_reaches_long_break() {
    let clock = FixedClock::new("2025-01-01", "09:00");
    let notifier = NoopNotifier;

    let mut data = AppData::default();
    data.settings.pomodoro = 1;
    data.settings.short_break = 1;
    data.settings.long_break = 2;
    data.settings.long_break_interval = 2;
    data.tags = vec!["A".to_string()];
    data.history.push(HistoryDay {
        date: "2025-01-01".to_string(),
        records: vec![HistoryRecord {
            tag: "A".to_string(),
            start_time: "08:00".to_string(),
            end_time: Some("08:01".to_string()),
            duration: 1,
            phase: Phase::Work,
            remark: String::new(),
        }],
    });

    let mut runtime = TimerRuntime::new(&data.settings, &data.tags, &clock);
    runtime.start(&data.settings, &clock);
    for _ in 0..60 {
        let _ = runtime.tick(&mut data, &clock, &notifier).unwrap();
    }
    assert_eq!(runtime.phase, Phase::LongBreak);
    assert_eq!(runtime.remaining_seconds, 120);
    assert!(runtime.is_running);
    assert_eq!(data.history[0].records.len(), 2);
}

/// With auto-continue set to two, the second work phase starts by itself
/// and a third would not: the counter reaches zero.
#[test]
fn auto_continue_stops_after_configured_count() {
    let clock = FixedClock::new("2025-01-01", "09:00");
    let notifier = NoopNotifier;

    let mut data = AppData::default();
    data.settings.pomodoro = 1;
    data.settings.short_break = 1;
    data.settings.long_break = 1;
    data.settings.long_break_interval = 10;
    data.settings.auto_continue_enabled = true;
    data.settings.auto_continue_pomodoros = 2;
    data.tags = vec!["A".to_string()];

    let mut runtime = TimerRuntime::new(&data.settings, &data.tags, &clock);
    runtime.start(&data.settings, &clock);

    // First work phase runs out.
    runtime.remaining_seconds = 1;
    let out = runtime.tick(&mut data, &clock, &notifier).unwrap();
    assert!(out.phase_ended && !out.work_auto_started);
    assert_eq!(runtime.phase, Phase::ShortBreak);

    // The break runs out: the second work phase starts by itself.
    runtime.remaining_seconds = 1;
    let out = runtime.tick(&mut data, &clock, &notifier).unwrap();
    assert!(out.work_auto_started);
    assert_eq!(runtime.phase, Phase::Work);
    assert!(runtime.is_running);

    // Second work phase and its break run out: no third auto-start.
    runtime.remaining_seconds = 1;
    let _ = runtime.tick(&mut data, &clock, &notifier).unwrap();
    assert_eq!(runtime.phase, Phase::ShortBreak);
    runtime.remaining_seconds = 1;
    let out = runtime.tick(&mut data, &clock, &notifier).unwrap();
    assert!(!out.work_auto_started);
    assert_eq!(runtime.phase, Phase::Work);
    assert!(!runtime.is_running);
}

/// The transition rule on its own: a nonzero multiple brings the long
/// break; zero completions never do; breaks always return to work.
#[test]
fn next_phase_follows_the_rule() {
    assert_eq!(next_phase(Phase::Work, 4, 4), Phase::LongBreak);
    assert_eq!(next_phase(Phase::Work, 4, 8), Phase::LongBreak);
    assert_eq!(next_phase(Phase::Work, 4, 3), Phase::ShortBreak);
    assert_eq!(next_phase(Phase::Work, 4, 0), Phase::ShortBreak);
    assert_eq!(next_phase(Phase::ShortBreak, 4, 4), Phase::Work);
    assert_eq!(next_phase(Phase::LongBreak, 4, 4), Phase::Work);
}

/// Phase durations are the configured minutes in seconds.
#[test]
fn phase_seconds_scales_minutes() {
    let settings = pomodoro_core::app_data::Settings {
        pomodoro: 25,
        short_break: 5,
        long_break: 15,
        ..pomodoro_core::app_data::Settings::default()
    };
    assert_eq!(phase_seconds(Phase::Work, &settings), 1500);
    assert_eq!(phase_seconds(Phase::ShortBreak, &settings), 300);
    assert_eq!(phase_seconds(Phase::LongBreak, &settings), 900);
}

/// The built-in sound catalogue and lookup by id, including imports.
#[test]
fn find_audio_prefers_builtin_then_custom() {
    let audios = builtin_audios();
    assert_eq!(audios.len(), 5);
    assert!(audios.iter().all(|a| a.builtin));

    let mut data = AppData::default();
    data.custom_audios.push(CustomAudio {
        id: "mine".to_string(),
        name: "自定义".to_string(),
        file_name: "mine.wav".to_string(),
        builtin: false,
    });

    let rain = find_audio_by_id(&data, "builtin-rain").expect("内置音效必须存在");
    assert_eq!(rain.name, "雨声");
    assert_eq!(rain.file_name, "rain.wav");
    assert!(rain.builtin);

    let mine = find_audio_by_id(&data, "mine").expect("自定义音效必须存在");
    assert_eq!(mine.name, "自定义");
    assert!(!mine.builtin);

    assert!(find_audio_by_id(&data, "missing").is_none());
}

/// Milestones fire exactly at one hundred, five hundred and one thousand.
#[test]
fn milestone_fires_only_at_thresholds() {
    assert!(milestone_reached(99).is_none());
    assert_eq!(milestone_reached(100).unwrap().milestone, 100);
    assert!(milestone_reached(101).is_none());
    assert_eq!(milestone_reached(500).unwrap().milestone, 500);
    assert_eq!(milestone_reached(1000).unwrap().milestone, 1000);
    assert!(milestone_reached(1500).is_none());
}
