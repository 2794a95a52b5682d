//! Phase-end notifications and goal-threshold notices. The texts are
//! computed by verified functions; delivery goes through the injected
//! `Notifier`, whose failures are observed and ignored, never undoing a
//! phase transition.

use vstd::prelude::*;
use vstd::string::StringExecFns;

use crate::app_data::Phase;
use crate::app_data::Settings;
use crate::errors::AppResult;
use crate::strutil::dec_digits;
use crate::strutil::u32_to_string;

verus! {

/// A notification sink, injected so the engine never depends on a concrete
/// backend. Implementations live outside this crate; a failure is reported
/// in the result and treated as non-fatal by every caller in the engine.
pub trait Notifier {
    /// Show a titled message.
    fn notify(&self, title: &str, body: &str) -> AppResult<()>;
}

/// One notice: a title and a body.
#[derive(Debug, Clone)]
pub struct GoalNotice {
    /// Notification title.
    pub title: String,
    /// Notification body.
    pub body: String,
}

/// The preview line announcing the next phase: whether it already started
/// by itself and how long it runs.
pub open spec fn preview_text(next: Phase, auto: bool, s: Settings) -> Seq<char> {
    let prefix = if auto {
        "已自动开始"@
    } else {
        "即将开始"@
    };
    match next {
        Phase::Work => prefix + "工作 "@ + dec_digits(s.pomodoro as int) + " 分钟"@,
        Phase::ShortBreak => prefix + "短休息 "@ + dec_digits(s.short_break as int) + " 分钟"@,
        Phase::LongBreak => prefix + "长休息 "@ + dec_digits(s.long_break as int) + " 分钟"@,
    }
}

/// Render the preview line for the next phase.
pub fn phase_preview(next: Phase, next_auto_started: bool, settings: &Settings) -> (r: String)
    ensures
        r@ == preview_text(next, next_auto_started, *settings),
{
    let mut s = String::new();
    if next_auto_started {
        s.append("已自动开始");
    } else {
        s.append("即将开始");
    }
    match next {
        Phase::Work => {
            s.append("工作 ");
            let d = u32_to_string(settings.pomodoro);
            s.append(d.as_str());
            s.append(" 分钟");
        },
        Phase::ShortBreak => {
            s.append("短休息 ");
            let d = u32_to_string(settings.short_break);
            s.append(d.as_str());
            s.append(" 分钟");
        },
        Phase::LongBreak => {
            s.append("长休息 ");
            let d = u32_to_string(settings.long_break);
            s.append(d.as_str());
            s.append(" 分钟");
        },
    }
    proof {
        assert(s@ =~= preview_text(next, next_auto_started, *settings));
    }
    s
}

/// The title and body of the notification sent when a phase ends.
pub open spec fn phase_end_title(ended: Phase) -> Seq<char> {
    match ended {
        Phase::Work => "专注完成"@,
        Phase::ShortBreak => "短休息结束"@,
        Phase::LongBreak => "长休息结束"@,
    }
}

/// The body of the phase-end notification.
pub open spec fn phase_end_body(ended: Phase, next: Phase, auto: bool, s: Settings) -> Seq<char> {
    match ended {
        Phase::Work => "本阶段已结束。"@ + preview_text(next, auto, s),
        Phase::ShortBreak => preview_text(next, auto, s),
        Phase::LongBreak => preview_text(next, auto, s),
    }
}

/// Render the phase-end notification as a title and a body.
pub fn phase_end_message(ended: Phase, next: Phase, next_auto_started: bool, settings: &Settings) -> (r: (
    String,
    String,
))
    ensures
        r.0@ == phase_end_title(ended),
        r.1@ == phase_end_body(ended, next, next_auto_started, *settings),
{
    let preview = phase_preview(next, next_auto_started, settings);
    match ended {
        Phase::Work => {
            let mut title = String::new();
            title.append("专注完成");
            let mut body = String::new();
            body.append("本阶段已结束。");
            body.append(preview.as_str());
            (title, body)
        },
        Phase::ShortBreak => {
            let mut title = String::new();
            title.append("短休息结束");
            (title, preview)
        },
        Phase::LongBreak => {
            let mut title = String::new();
            title.append("长休息结束");
            (title, preview)
        },
    }
}

/// Send the phase-end notification. A failing notifier is observed and
/// ignored; the call always succeeds.
pub fn notify_phase_end<N: Notifier>(
    notifier: &N,
    ended: Phase,
    next: Phase,
    next_auto_started: bool,
    settings: &Settings,
) -> (r: AppResult<()>)
    ensures
        r is Ok,
{
    let (title, body) = phase_end_message(ended, next, next_auto_started, settings);
    let _ = notifier.notify(title.as_str(), body.as_str());
    Ok(())
}

/// Whether a step from `before` to `after` crosses a threshold: the notice
/// for the threshold fires on exactly this step.
pub open spec fn crosses(before: int, after: int, threshold: int) -> bool {
    before < threshold && threshold <= after
}

/// Half of a goal, rounded up: the 50% threshold.
pub open spec fn half_of(goal: int) -> int {
    (goal + 1) / 2
}

/// The body of a progress notice: prefix, then `after/goal`, closed by a
/// full-width parenthesis.
pub open spec fn progress_text(prefix: Seq<char>, after: int, goal: int) -> Seq<char> {
    prefix + dec_digits(after) + "/"@ + dec_digits(goal) + "）"@
}

/// The notices owed when a work completion moves the daily total from
/// `db` to `da` and the weekly total from `wb` to `wa`: a 50% and a
/// full-goal notice per goal, each exactly when its threshold is crossed.
pub open spec fn expected_notices(s: Settings, db: int, da: int, wb: int, wa: int) -> Seq<
    (Seq<char>, Seq<char>),
> {
    (if s.daily_goal > 0 && crosses(db, da, half_of(s.daily_goal as int)) {
        seq![("今日目标进度"@, progress_text("已完成今日目标 50%（"@, da, s.daily_goal as int))]
    } else {
        Seq::empty()
    }) + (if s.daily_goal > 0 && crosses(db, da, s.daily_goal as int) {
        seq![("今日目标达成"@, progress_text("恭喜！已完成今日目标（"@, da, s.daily_goal as int))]
    } else {
        Seq::empty()
    }) + (if s.weekly_goal > 0 && crosses(wb, wa, half_of(s.weekly_goal as int)) {
        seq![("本周目标进度"@, progress_text("已完成本周目标 50%（"@, wa, s.weekly_goal as int))]
    } else {
        Seq::empty()
    }) + (if s.weekly_goal > 0 && crosses(wb, wa, s.weekly_goal as int) {
        seq![("本周目标达成"@, progress_text("恭喜！已完成本周目标（"@, wa, s.weekly_goal as int))]
    } else {
        Seq::empty()
    })
}

/// Render a progress notice body.
fn progress_body(prefix: &str, after: u32, goal: u32) -> (r: String)
    ensures
        r@ == progress_text(prefix@, after as int, goal as int),
{
    let mut s = String::new();
    s.append(prefix);
    let a = u32_to_string(after);
    s.append(a.as_str());
    s.append("/");
    let g = u32_to_string(goal);
    s.append(g.as_str());
    s.append("）");
    proof {
        assert(s@ =~= progress_text(prefix@, after as int, goal as int));
    }
    s
}

/// A notice with the given title literal and progress body.
fn notice(title: &str, prefix: &str, after: u32, goal: u32) -> (r: GoalNotice)
    ensures
        r.title@ == title@,
        r.body@ == progress_text(prefix@, after as int, goal as int),
{
    let mut t = String::new();
    t.append(title);
    GoalNotice { title: t, body: progress_body(prefix, after, goal) }
}

/// The 50% threshold of a goal, rounded up.
fn half_exec(goal: u32) -> (r: u32)
    ensures
        r == half_of(goal as int),
{
    goal / 2 + goal % 2
}

/// The notices owed for this completion step, in the order they are shown:
/// daily 50%, daily goal, weekly 50%, weekly goal — each exactly when the
/// step crosses its threshold, so each fires once per crossing.
pub fn goal_notices(
    settings: &Settings,
    daily_before: u32,
    daily_after: u32,
    weekly_before: u32,
    weekly_after: u32,
) -> (r: Vec<GoalNotice>)
    ensures
        ({
            let expected = expected_notices(
                *settings,
                daily_before as int,
                daily_after as int,
                weekly_before as int,
                weekly_after as int,
            );
            r@.len() == expected.len() && (forall|i: int|
                0 <= i < expected.len() ==> (#[trigger] r@[i]).title@ == expected[i].0
                    && r@[i].body@ == expected[i].1)
        }),
{
    let ghost db = daily_before as int;
    let ghost da = daily_after as int;
    let ghost wb = weekly_before as int;
    let ghost wa = weekly_after as int;
    let ghost e1 = if settings.daily_goal > 0 && crosses(db, da, half_of(settings.daily_goal as int)) {
        seq![("今日目标进度"@, progress_text("已完成今日目标 50%（"@, da, settings.daily_goal as int))]
    } else {
        Seq::empty()
    };
    let ghost e2 = if settings.daily_goal > 0 && crosses(db, da, settings.daily_goal as int) {
        seq![("今日目标达成"@, progress_text("恭喜！已完成今日目标（"@, da, settings.daily_goal as int))]
    } else {
        Seq::empty()
    };
    let ghost e3 = if settings.weekly_goal > 0 && crosses(wb, wa, half_of(settings.weekly_goal as int)) {
        seq![("本周目标进度"@, progress_text("已完成本周目标 50%（"@, wa, settings.weekly_goal as int))]
    } else {
        Seq::empty()
    };
    let ghost e4 = if settings.weekly_goal > 0 && crosses(wb, wa, settings.weekly_goal as int) {
        seq![("本周目标达成"@, progress_text("恭喜！已完成本周目标（"@, wa, settings.weekly_goal as int))]
    } else {
        Seq::empty()
    };

    let mut out: Vec<GoalNotice> = Vec::new();
    let dg = settings.daily_goal;
    if dg > 0 {
        let half = half_exec(dg);
        if daily_before < half && daily_after >= half {
            out.push(notice("今日目标进度", "已完成今日目标 50%（", daily_after, dg));
        }
        if daily_before < dg && daily_after >= dg {
            out.push(notice("今日目标达成", "恭喜！已完成今日目标（", daily_after, dg));
        }
    }
    proof {
        assert(out@.len() == e1.len() + e2.len());
        assert(forall|i: int|
            0 <= i < (e1 + e2).len() ==> (#[trigger] out@[i]).title@ == (e1 + e2)[i].0
                && out@[i].body@ == (e1 + e2)[i].1);
    }
    let wg = settings.weekly_goal;
    if wg > 0 {
        let half = half_exec(wg);
        if weekly_before < half && weekly_after >= half {
            out.push(notice("本周目标进度", "已完成本周目标 50%（", weekly_after, wg));
        }
        if weekly_before < wg && weekly_after >= wg {
            out.push(notice("本周目标达成", "恭喜！已完成本周目标（", weekly_after, wg));
        }
    }
    proof {
        let expected = expected_notices(*settings, db, da, wb, wa);
        assert(expected == e1 + e2 + e3 + e4);
        assert(out@.len() == expected.len());
        assert(forall|i: int|
            0 <= i < expected.len() ==> (#[trigger] out@[i]).title@ == expected[i].0
                && out@[i].body@ == expected[i].1);
    }
    out
}

/// Send the goal notices owed for this completion step. A failing notifier
/// is observed and ignored; the call always succeeds.
pub fn notify_goal_progress_if_needed<N: Notifier>(
    notifier: &N,
    settings: &Settings,
    daily_before: u32,
    daily_after: u32,
    weekly_before: u32,
    weekly_after: u32,
) -> (r: AppResult<()>)
    ensures
        r is Ok,
{
    let notices = goal_notices(settings, daily_before, daily_after, weekly_before, weekly_after);
    let n = notices.len();
    let mut i: usize = 0;
    while i < n
        invariant
            n == notices@.len(),
            i <= n,
        decreases n - i,
    {
        let one = &notices[i];
        let _ = notifier.notify(one.title.as_str(), one.body.as_str());
        i = i + 1;
    }
    Ok(())
}

/// Whether a sequence of totals never decreases.
pub open spec fn monotone(ts: Seq<int>) -> bool {
    forall|i: int, j: int| 0 <= i <= j < ts.len() ==> ts[i] <= ts[j]
}

/// How many steps of a run of totals cross the threshold: the number of
/// times the notice for the threshold fires across the run.
pub open spec fn crossing_count(ts: Seq<int>, threshold: int) -> nat
    decreases ts.len(),
{
    if ts.len() <= 1 {
        0
    } else {
        crossing_count(ts.drop_last(), threshold) + (if crosses(
            ts[ts.len() - 2],
            ts.last(),
            threshold,
        ) {
            1nat
        } else {
            0nat
        })
    }
}

/// A run of totals that stays below the threshold fires no notice.
proof fn lemma_crossing_count_zero(ts: Seq<int>, threshold: int)
    requires
        ts.len() >= 1,
        monotone(ts),
        ts.last() < threshold,
    ensures
        crossing_count(ts, threshold) == 0,
    decreases ts.len(),
{
    if ts.len() > 1 {
        assert(ts[ts.len() - 2] <= ts.last());
        assert(forall|i: int, j: int|
            0 <= i <= j < ts.drop_last().len() ==> ts.drop_last()[i] <= ts.drop_last()[j]);
        lemma_crossing_count_zero(ts.drop_last(), threshold);
    }
}

/// A threshold notice fires exactly once across a monotone run of totals
/// that starts below the threshold and ends at or above it. With the
/// completion totals of a day as the run, the 50% and full-goal notices
/// each fire exactly once.
pub proof fn lemma_threshold_fires_once(ts: Seq<int>, threshold: int)
    requires
        ts.len() >= 1,
        monotone(ts),
        ts[0] < threshold,
        threshold <= ts.last(),
    ensures
        crossing_count(ts, threshold) == 1,
    decreases ts.len(),
{
    assert(ts.len() >= 2);
    let prev = ts[ts.len() - 2];
    let pre = ts.drop_last();
    assert(forall|i: int, j: int| 0 <= i <= j < pre.len() ==> pre[i] <= pre[j]);
    if prev < threshold {
        assert(crosses(prev, ts.last(), threshold));
        lemma_crossing_count_zero(pre, threshold);
    } else {
        assert(!crosses(prev, ts.last(), threshold));
        lemma_threshold_fires_once(pre, threshold);
    }
}

} // verus!
