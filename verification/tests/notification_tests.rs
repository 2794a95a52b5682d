//! Tests of the phase-end and goal-threshold notifications.

use std::cell::RefCell;

use pomodoro_core::app_data::Phase;
use pomodoro_core::app_data::Settings;
use pomodoro_core::errors::AppResult;
use pomodoro_core::notification::Notifier;
use pomodoro_core::notification::notify_goal_progress_if_needed;
use pomodoro_core::notification::notify_phase_end;
use pomodoro_core::notification::phase_preview;

/// A notifier that records every message, in order.
struct RecordingNotifier {
    calls: RefCell<Vec<(String, String)>>,
}

impl RecordingNotifier {
    /// An empty recorder.
    fn new() -> Self {
        Self { calls: RefCell::new(Vec::new()) }
    }

    /// Take the recorded messages.
    fn take(&self) -> Vec<(String, String)> {
        std::mem::take(&mut *self.calls.borrow_mut())
    }
}

impl Notifier for RecordingNotifier {
    fn notify(&self, title: &str, body: &str) -> AppResult<()> {
        self.calls.borrow_mut().push((title.to_string(), body.to_string()));
        Ok(())
    }
}

/// The preview names the phase and its length, and says whether it
/// already started.
#[test]
fn phase_preview_formats_for_all_phases() {
    let settings = Settings { pomodoro: 25, short_break: 5, long_break: 15, ..Settings::default() };

    assert_eq!(phase_preview(Phase::Work, false, &settings), "即将开始工作 25 分钟");
    assert_eq!(phase_preview(Phase::ShortBreak, false, &settings), "即将开始短休息 5 分钟");
    assert_eq!(phase_preview(Phase::LongBreak, true, &settings), "已自动开始长休息 15 分钟");
}

/// Each phase end sends its own title and the preview of what follows.
#[test]
fn notify_phase_end_sends_expected_titles_and_bodies() {
    let notifier = RecordingNotifier::new();
    let settings = Settings { pomodoro: 25, short_break: 5, long_break: 15, ..Settings::default() };

    notify_phase_end(&notifier, Phase::Work, Phase::ShortBreak, false, &settings).unwrap();
    notify_phase_end(&notifier, Phase::ShortBreak, Phase::Work, true, &settings).unwrap();
    notify_phase_end(&notifier, Phase::LongBreak, Phase::Work, false, &settings).unwrap();

    let calls = notifier.take();
    assert_eq!(calls.len(), 3);
    assert_eq!(calls[0].0, "专注完成");
    assert_eq!(calls[0].1, "本阶段已结束。即将开始短休息 5 分钟");
    assert_eq!(calls[1].0, "短休息结束");
    assert_eq!(calls[1].1, "已自动开始工作 25 分钟");
    assert_eq!(calls[2].0, "长休息结束");
    assert_eq!(calls[2].1, "即将开始工作 25 分钟");
}

/// Goals of zero never notify.
#[test]
fn notify_goal_progress_skips_when_goals_are_zero() {
    let notifier = RecordingNotifier::new();
    let settings = Settings { daily_goal: 0, weekly_goal: 0, ..Settings::default() };

    notify_goal_progress_if_needed(&notifier, &settings, 0, 100, 0, 100).unwrap();
    assert!(notifier.take().is_empty());
}

/// Crossing the 50% and full thresholds notifies, both in one step when a
/// single completion crosses both.
#[test]
fn notify_goal_progress_sends_threshold_notifications() {
    let notifier = RecordingNotifier::new();
    let settings = Settings { daily_goal: 5, weekly_goal: 4, ..Settings::default() };

    notify_goal_progress_if_needed(&notifier, &settings, 2, 5, 1, 4).unwrap();

    let calls = notifier.take();
    assert_eq!(calls.len(), 4);
    assert_eq!(calls[0].0, "今日目标进度");
    assert!(calls[0].1.contains("50%（5/5）"));
    assert_eq!(calls[1].0, "今日目标达成");
    assert!(calls[1].1.contains("（5/5）"));
    assert_eq!(calls[2].0, "本周目标进度");
    assert!(calls[2].1.contains("50%（4/4）"));
    assert_eq!(calls[3].0, "本周目标达成");
    assert!(calls[3].1.contains("（4/4）"));
}

/// A step that crosses nothing notifies nothing.
#[test]
fn notify_goal_progress_is_idempotent_when_not_crossing() {
    let notifier = RecordingNotifier::new();
    let settings = Settings { daily_goal: 4, weekly_goal: 0, ..Settings::default() };

    notify_goal_progress_if_needed(&notifier, &settings, 2, 2, 0, 0).unwrap();
    assert!(notifier.take().is_empty());

    notify_goal_progress_if_needed(&notifier, &settings, 3, 3, 0, 0).unwrap();
    assert!(notifier.take().is_empty());
}

/// Across a run of single completions, each threshold notice fires exactly
/// once: the 50% notice at the third completion, the goal notice at the
/// fifth.
#[test]
fn goal_notices_fire_once_across_a_run() {
    let notifier = RecordingNotifier::new();
    let settings = Settings { daily_goal: 5, weekly_goal: 0, ..Settings::default() };

    for before in 0..5u32 {
        notify_goal_progress_if_needed(&notifier, &settings, before, before + 1, 0, 0).unwrap();
    }

    let calls = notifier.take();
    assert_eq!(calls.len(), 2);
    assert_eq!(calls[0].0, "今日目标进度");
    assert_eq!(calls[0].1, "已完成今日目标 50%（3/5）");
    assert_eq!(calls[1].0, "今日目标达成");
    assert_eq!(calls[1].1, "恭喜！已完成今日目标（5/5）");
}
