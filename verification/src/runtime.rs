//! The timer state machine: countdown, phase transitions, history writing
//! and notification triggers. `tick` is driven once per second by an outside
//! scheduler; every other operation is a command from the user.

use vstd::prelude::*;
use vstd::string::StringExecFns;

use crate::app_data::AppData;
use crate::app_data::HistoryDay;
use crate::app_data::HistoryRecord;
use crate::app_data::Phase;
use crate::app_data::Settings;
use crate::app_data::clone_string;
use crate::clock::SystemClock;
use crate::clock::TimerClock;
use crate::errors::AppError;
use crate::notification::Notifier;
use crate::notification::notify_goal_progress_if_needed;
use crate::notification::notify_phase_end;
use crate::stats::GoalProgress;
use crate::stats::TodayStats;
use crate::stats::WeekStats;
use crate::stats::compute_today_stats;
use crate::stats::compute_week_stats;
use crate::stats::lemma_today_le_total;
use crate::stats::lemma_week_le_total;
use crate::stats::today_total;
use crate::stats::total_records;
use crate::strutil::is_blank;
use crate::strutil::spec_is_blank;
use crate::strutil::str_eq;

verus! {

/// A read-only projection of the timer and the statistics, for rendering.
#[derive(Debug, Clone)]
pub struct TimerSnapshot {
    /// Current phase.
    pub phase: Phase,
    /// Remaining seconds of the phase.
    pub remaining_seconds: u64,
    /// Whether the countdown is running.
    pub is_running: bool,
    /// The tag the next completion will carry.
    pub current_tag: String,
    /// Whether the blacklist is locked by an active work session.
    pub blacklist_locked: bool,
    /// The settings in force.
    pub settings: Settings,
    /// Today's totals.
    pub today_stats: TodayStats,
    /// This week's totals.
    pub week_stats: WeekStats,
    /// Progress against the goals.
    pub goal_progress: GoalProgress,
}

/// What one `tick` did: whether history must be persisted, whether a phase
/// ended, and whether a work phase started by itself.
pub struct TickResult {
    /// A history record was written; the caller should persist.
    pub history_changed: bool,
    /// The running phase reached zero and the next phase was applied.
    pub phase_ended: bool,
    /// A work phase began without user action; the caller should re-apply
    /// the process blacklist.
    pub work_auto_started: bool,
    /// Set when a work session completed: locates the record just written.
    pub work_completed_event: Option<WorkCompletedEvent>,
}

/// Where a completed work session was written.
#[derive(Debug, Clone)]
pub struct WorkCompletedEvent {
    /// The day bucket (`YYYY-MM-DD`).
    pub date: String,
    /// Index of the record within that day.
    pub record_index: usize,
    /// The record itself.
    pub record: HistoryRecord,
}

/// The timer's running state. It is not persisted: a restart begins a fresh
/// work phase. Only the history it writes survives.
#[derive(Debug)]
pub struct TimerRuntime {
    /// Current phase.
    pub phase: Phase,
    /// Remaining seconds of the phase.
    pub remaining_seconds: u64,
    /// Whether the countdown is running.
    pub is_running: bool,
    /// The tag the next completion will carry; never blank.
    pub current_tag: String,
    /// The date a work session first started (`YYYY-MM-DD`); set once per
    /// work session, cleared on every phase change.
    pub work_started_date: Option<String>,
    /// The time a work session first started (`HH:mm`).
    pub work_started_time: Option<String>,
    /// True from the first start of a work phase until that phase ends:
    /// while set, the process blacklist may only grow.
    pub work_lock_active: bool,
    /// How many work phases may still start automatically.
    pub auto_work_remaining: u32,
}

// ---------------------------------------------------------------------------
// Phase rules
// ---------------------------------------------------------------------------

/// The full duration of a phase, in seconds.
pub open spec fn phase_secs(phase: Phase, s: Settings) -> int {
    match phase {
        Phase::Work => s.pomodoro * 60,
        Phase::ShortBreak => s.short_break * 60,
        Phase::LongBreak => s.long_break * 60,
    }
}

/// The full duration of a phase, in seconds.
pub fn phase_seconds(phase: Phase, settings: &Settings) -> (r: u64)
    ensures
        r == phase_secs(phase, *settings),
{
    match phase {
        Phase::Work => settings.pomodoro as u64 * 60,
        Phase::ShortBreak => settings.short_break as u64 * 60,
        Phase::LongBreak => settings.long_break as u64 * 60,
    }
}

/// The transition rule: a work phase is followed by a long break exactly
/// when the day's completed total is a nonzero multiple of the long-break
/// interval, and by a short break otherwise; every break is followed by
/// work.
pub open spec fn next_phase_spec(current: Phase, interval: u32, completed_after: int) -> Phase {
    match current {
        Phase::Work => if interval > 0 && completed_after > 0 && completed_after % (interval as int)
            == 0 {
            Phase::LongBreak
        } else {
            Phase::ShortBreak
        },
        Phase::ShortBreak => Phase::Work,
        Phase::LongBreak => Phase::Work,
    }
}

/// The phase that follows `current`, given the day's completed total after
/// the transition.
pub fn next_phase(current: Phase, long_break_interval: u32, completed_today_after: u32) -> (r:
    Phase)
    ensures
        r == next_phase_spec(current, long_break_interval, completed_today_after as int),
{
    match current {
        Phase::Work => {
            if long_break_interval > 0 && completed_today_after > 0 && completed_today_after
                % long_break_interval == 0 {
                Phase::LongBreak
            } else {
                Phase::ShortBreak
            }
        },
        Phase::ShortBreak => Phase::Work,
        Phase::LongBreak => Phase::Work,
    }
}

// ---------------------------------------------------------------------------
// Day lookup
// ---------------------------------------------------------------------------

/// The first index whose day carries the date, or -1 if the date has no
/// day yet.
pub open spec fn find_day(h: Seq<HistoryDay>, date: Seq<char>) -> int
    decreases h.len(),
{
    if h.len() == 0 {
        -1
    } else if h[0].date@ == date {
        0
    } else {
        let r = find_day(h.drop_first(), date);
        if r < 0 {
            -1
        } else {
            r + 1
        }
    }
}

/// What `find_day` returns: the first match, or -1 when nothing matches.
pub proof fn lemma_find_day(h: Seq<HistoryDay>, date: Seq<char>)
    ensures
        find_day(h, date) >= 0 ==> 0 <= find_day(h, date) < h.len() && h[find_day(
            h,
            date,
        )].date@ == date && (forall|j: int| 0 <= j < find_day(h, date) ==> (#[trigger] h[j].date@)
            != date),
        find_day(h, date) < 0 ==> (forall|j: int|
            0 <= j < h.len() ==> (#[trigger] h[j].date@) != date),
    decreases h.len(),
{
    if h.len() > 0 && h[0].date@ != date {
        let h2 = h.drop_first();
        lemma_find_day(h2, date);
        let r = find_day(h2, date);
        if r >= 0 {
            assert(h2[r] == h[r + 1]);
            assert forall|j: int| 0 <= j < r + 1 implies (#[trigger] h[j].date@) != date by {
                if j > 0 {
                    assert(h2[j - 1] == h[j]);
                    assert(h2[j - 1].date@ != date);
                }
            }
        } else {
            assert forall|j: int| 0 <= j < h.len() implies (#[trigger] h[j].date@) != date by {
                if j > 0 {
                    assert(h2[j - 1] == h[j]);
                    assert(h2[j - 1].date@ != date);
                }
            }
        }
    }
}

/// `find_day` finds an index that is known to be the first match.
proof fn lemma_find_day_at(h: Seq<HistoryDay>, date: Seq<char>, i: int)
    requires
        0 <= i < h.len(),
        h[i].date@ == date,
        forall|j: int| 0 <= j < i ==> (#[trigger] h[j].date@) != date,
    ensures
        find_day(h, date) == i,
    decreases i,
{
    if i > 0 {
        let h2 = h.drop_first();
        assert(forall|j: int| 0 <= j < i - 1 ==> #[trigger] h2[j] == h[j + 1]);
        lemma_find_day_at(h2, date, i - 1);
    }
}

/// Return the index of the day carrying the date, creating an empty day at
/// the end if the date has none. Day lookup is by first match.
fn ensure_day_index(history: &mut Vec<HistoryDay>, date: &str) -> (i: usize)
    requires
        old(history)@.len() < usize::MAX,
    ensures
        find_day(old(history)@, date@) >= 0 ==> final(history)@ == old(history)@ && i == find_day(
            old(history)@,
            date@,
        ),
        find_day(old(history)@, date@) < 0 ==> final(history)@.len() == old(history)@.len() + 1
            && final(history)@.take(old(history)@.len() as int) == old(history)@
            && final(history)@.last().date@ == date@
            && final(history)@.last().records@.len() == 0
            && i == old(history)@.len(),
{
    let ghost h = history@;
    let n = history.len();
    let mut k: usize = 0;
    while k < n
        invariant
            k <= n,
            n == h.len(),
            history@ == h,
            forall|j: int| 0 <= j < k ==> (#[trigger] h[j].date@) != date@,
        decreases n - k,
    {
        if str_eq(history[k].date.as_str(), date) {
            proof {
                lemma_find_day_at(h, date@, k as int);
            }
            return k;
        }
        k = k + 1;
    }
    proof {
        lemma_find_day(h, date@);
        if find_day(h, date@) >= 0 {
            assert(h[find_day(h, date@)].date@ == date@);
            assert(false);
        }
    }
    let day = HistoryDay { date: date.to_owned(), records: Vec::new() };
    history.push(day);
    proof {
        assert(history@.take(h.len() as int) =~= h);
    }
    n
}

// ---------------------------------------------------------------------------
// The transition relation
// ---------------------------------------------------------------------------

/// Everything of the persisted data except the history is untouched.
pub open spec fn unchanged_non_history(pre: AppData, post: AppData) -> bool {
    &&& post.settings == pre.settings
    &&& post.blacklist == pre.blacklist
    &&& post.blacklist_templates == pre.blacklist_templates
    &&& post.active_template_ids == pre.active_template_ids
    &&& post.active_template_id == pre.active_template_id
    &&& post.tags == pre.tags
    &&& post.history_dev == pre.history_dev
    &&& post.custom_audios == pre.custom_audios
    &&& post.current_combo == pre.current_combo
    &&& post.total_pomodoros == pre.total_pomodoros
}

/// A tick result that reports no change.
pub open spec fn no_change_result(t: TickResult) -> bool {
    &&& !t.history_changed
    &&& !t.phase_ended
    &&& !t.work_auto_started
    &&& t.work_completed_event is None
}

/// What `start` does when handed the given clock strings: a no-op while
/// running; otherwise the countdown starts, and a not-yet-locked work phase
/// captures the start date and time, takes the blacklist lock and, at the
/// start of a chain, arms the auto-continue counter.
pub open spec fn start_at_rel(
    pre: TimerRuntime,
    post: TimerRuntime,
    today: Seq<char>,
    now: Seq<char>,
    s: Settings,
) -> bool {
    if pre.is_running {
        post == pre
    } else {
        &&& post.phase == pre.phase
        &&& post.remaining_seconds == pre.remaining_seconds
        &&& post.current_tag == pre.current_tag
        &&& post.is_running
        &&& if pre.phase == Phase::Work && !pre.work_lock_active {
            &&& post.work_lock_active
            &&& post.work_started_date matches Some(d) && d@ == today
            &&& post.work_started_time matches Some(t) && t@ == now
            &&& post.auto_work_remaining == (if s.auto_continue_enabled && pre.auto_work_remaining
                == 0 {
                s.auto_continue_pomodoros
            } else {
                pre.auto_work_remaining
            })
        } else {
            &&& post.work_lock_active == pre.work_lock_active
            &&& post.work_started_date == pre.work_started_date
            &&& post.work_started_time == pre.work_started_time
            &&& post.auto_work_remaining == pre.auto_work_remaining
        }
    }
}

/// The auto-continue counter after a work phase ends: cleared when the
/// feature is off, otherwise counted down to no less than zero.
pub open spec fn auto_after_work(pre_auto: u32, s: Settings) -> u32 {
    if !s.auto_continue_enabled {
        0
    } else if pre_auto > 0 {
        (pre_auto - 1) as u32
    } else {
        0
    }
}

/// The date bucket a completing work session is written to: the captured
/// start date, or today when none was captured.
pub open spec fn record_date_view(pre: TimerRuntime, today: Seq<char>) -> Seq<char> {
    match pre.work_started_date {
        Some(d) => d@,
        None => today,
    }
}

/// The record a completing work session writes: the current tag, the
/// captured start time (or now), now as the end time, the configured work
/// duration, the work phase, and an empty remark.
pub open spec fn completion_record_ok(
    rec: HistoryRecord,
    pre: TimerRuntime,
    now: Seq<char>,
    dur: u32,
) -> bool {
    &&& rec.tag@ == pre.current_tag@
    &&& rec.start_time@ == (match pre.work_started_time {
        Some(t) => t@,
        None => now,
    })
    &&& rec.end_time matches Some(e) && e@ == now
    &&& rec.duration == dur
    &&& rec.phase == Phase::Work
    &&& rec.remark@ == Seq::<char>::empty()
}

/// How the history changed when a work session completed: exactly one
/// record was appended to the day carrying the record date (the day being
/// created at the end if absent), and the event points at it.
pub open spec fn history_appended(
    pre_h: Seq<HistoryDay>,
    post_h: Seq<HistoryDay>,
    date: Seq<char>,
    pre: TimerRuntime,
    now: Seq<char>,
    dur: u32,
    ev: WorkCompletedEvent,
) -> bool {
    let i = find_day(pre_h, date);
    &&& ev.date@ == date
    &&& completion_record_ok(ev.record, pre, now, dur)
    &&& if i >= 0 {
        &&& post_h.len() == pre_h.len()
        &&& (forall|j: int| 0 <= j < pre_h.len() && j != i ==> post_h[j] == pre_h[j])
        &&& post_h[i].date == pre_h[i].date
        &&& post_h[i].records@.len() == pre_h[i].records@.len() + 1
        &&& post_h[i].records@.take(pre_h[i].records@.len() as int) == pre_h[i].records@
        &&& completion_record_ok(post_h[i].records@.last(), pre, now, dur)
        &&& ev.record_index == pre_h[i].records@.len()
    } else {
        &&& post_h.len() == pre_h.len() + 1
        &&& post_h.take(pre_h.len() as int) == pre_h
        &&& post_h.last().date@ == date
        &&& post_h.last().records@.len() == 1
        &&& completion_record_ok(post_h.last().records@[0], pre, now, dur)
        &&& ev.record_index == 0
    }
}

/// What a tick that ends the running phase does, given the clock strings.
pub open spec fn phase_end_rel(
    pre: TimerRuntime,
    pre_data: AppData,
    today: Seq<char>,
    now: Seq<char>,
    post: TimerRuntime,
    post_data: AppData,
    t: TickResult,
) -> bool {
    let s = pre_data.settings;
    let ended = pre.phase;
    let before = today_total(pre_data.history@, today) as int;
    let after = if ended == Phase::Work {
        before + 1
    } else {
        before
    };
    let next = next_phase_spec(ended, s.long_break_interval, after);
    let auto1 = if ended == Phase::Work {
        auto_after_work(pre.auto_work_remaining, s)
    } else {
        pre.auto_work_remaining
    };
    let cleared = TimerRuntime {
        phase: next,
        remaining_seconds: phase_secs(next, s) as u64,
        is_running: false,
        current_tag: pre.current_tag,
        work_started_date: None,
        work_started_time: None,
        work_lock_active: false,
        auto_work_remaining: auto1,
    };
    let started = match next {
        Phase::Work => s.auto_continue_enabled && auto1 > 0,
        Phase::ShortBreak => true,
        Phase::LongBreak => true,
    };
    &&& unchanged_non_history(pre_data, post_data)
    &&& t.phase_ended
    &&& t.history_changed == (ended == Phase::Work)
    &&& t.work_auto_started == (next == Phase::Work && started)
    &&& (if started {
        start_at_rel(cleared, post, today, now, s)
    } else {
        post == cleared
    })
    &&& (if ended == Phase::Work {
        t.work_completed_event matches Some(ev) && history_appended(
            pre_data.history@,
            post_data.history@,
            record_date_view(pre, today),
            pre,
            now,
            s.pomodoro,
            ev,
        )
    } else {
        post_data.history == pre_data.history && t.work_completed_event is None
    })
}

/// What one `tick` does, given the date and time strings the clock handed
/// back: paused timers and countdowns above one second change nothing but
/// the second counter; a countdown reaching zero ends the phase, writes the
/// completed work session, applies the transition rule and decides whether
/// the next phase starts by itself.
pub open spec fn tick_rel(
    pre: TimerRuntime,
    pre_data: AppData,
    today: Seq<char>,
    now: Seq<char>,
    post: TimerRuntime,
    post_data: AppData,
    t: TickResult,
) -> bool {
    if !pre.is_running {
        &&& post == pre
        &&& post_data == pre_data
        &&& no_change_result(t)
    } else if pre.remaining_seconds > 1 {
        &&& post == TimerRuntime { remaining_seconds: (pre.remaining_seconds - 1) as u64, ..pre }
        &&& post_data == pre_data
        &&& no_change_result(t)
    } else {
        phase_end_rel(pre, pre_data, today, now, post, post_data, t)
    }
}

// ---------------------------------------------------------------------------
// The runtime
// ---------------------------------------------------------------------------

impl TimerRuntime {
    /// A fresh runtime: work phase at full duration, not running, first tag
    /// of the list (or the default tag when the list is empty or its first
    /// tag is blank).
    pub fn new<C: TimerClock>(settings: &Settings, tags: &Vec<String>, clock: &C) -> (r: Self)
        ensures
            r.phase == Phase::Work,
            r.remaining_seconds == settings.pomodoro * 60,
            !r.is_running,
            !r.work_lock_active,
            r.work_started_date is None,
            r.work_started_time is None,
            r.auto_work_remaining == 0,
            tags@.len() > 0 && !spec_is_blank(tags@[0]@) ==> r.current_tag@ == tags@[0]@,
            tags@.len() == 0 || spec_is_blank(tags@[0]@) ==> r.current_tag@ == "工作"@,
    {
        let tag = if tags.len() > 0 {
            clone_string(&tags[0])
        } else {
            "工作".to_owned()
        };
        let mut r = TimerRuntime {
            phase: Phase::Work,
            remaining_seconds: settings.pomodoro as u64 * 60,
            is_running: false,
            current_tag: tag,
            work_started_date: None,
            work_started_time: None,
            work_lock_active: false,
            auto_work_remaining: 0,
        };
        r.normalize_tag_in_place(clock);
        r
    }

    /// Whether the process blacklist is locked: exactly while a started
    /// work session is in progress.
    pub fn blacklist_locked(&self) -> (r: bool)
        ensures
            r == (self.phase == Phase::Work && self.work_lock_active),
    {
        matches!(self.phase, Phase::Work) && self.work_lock_active
    }

    /// Whether a work session has started and not yet ended.
    pub fn is_work_started(&self) -> (r: bool)
        ensures
            r == (self.phase == Phase::Work && self.work_lock_active),
    {
        matches!(self.phase, Phase::Work) && self.work_lock_active
    }

    /// The seconds already spent in the current work session, zero outside
    /// a started work session.
    pub fn focused_seconds(&self, settings: &Settings) -> (r: u64)
        ensures
            (self.phase == Phase::Work && self.work_lock_active) ==> r == phase_secs(
                Phase::Work,
                *settings,
            ) - (if self.remaining_seconds <= phase_secs(Phase::Work, *settings) {
                self.remaining_seconds as int
            } else {
                phase_secs(Phase::Work, *settings)
            }),
            !(self.phase == Phase::Work && self.work_lock_active) ==> r == 0,
    {
        if !self.is_work_started() {
            return 0;
        }
        let total = settings.pomodoro as u64 * 60;
        let used = if self.remaining_seconds <= total {
            self.remaining_seconds
        } else {
            total
        };
        total - used
    }

    /// Normalize the tag in place: a blank tag becomes the default tag, and
    /// a running work session without captured start stamps has them filled
    /// from the clock.
    fn normalize_tag_in_place<C: TimerClock>(&mut self, clock: &C)
        ensures
            final(self).phase == old(self).phase,
            final(self).remaining_seconds == old(self).remaining_seconds,
            final(self).is_running == old(self).is_running,
            final(self).work_lock_active == old(self).work_lock_active,
            final(self).auto_work_remaining == old(self).auto_work_remaining,
            !spec_is_blank(old(self).current_tag@) ==> final(self).current_tag == old(
                self,
            ).current_tag,
            spec_is_blank(old(self).current_tag@) ==> final(self).current_tag@ == "工作"@,
            old(self).phase == Phase::Work && old(self).is_running ==> {
                &&& final(self).work_started_date is Some
                &&& final(self).work_started_time is Some
                &&& (old(self).work_started_date is Some ==> final(self).work_started_date == old(
                    self,
                ).work_started_date)
                &&& (old(self).work_started_time is Some ==> final(self).work_started_time == old(
                    self,
                ).work_started_time)
            },
            !(old(self).phase == Phase::Work && old(self).is_running) ==> {
                &&& final(self).work_started_date == old(self).work_started_date
                &&& final(self).work_started_time == old(self).work_started_time
            },
    {
        if is_blank(self.current_tag.as_str()) {
            self.current_tag = "工作".to_owned();
        }
        if matches!(self.phase, Phase::Work) && self.is_running {
            if self.work_started_date.is_none() {
                self.work_started_date = Some(clock.today_date());
            }
            if self.work_started_time.is_none() {
                self.work_started_time = Some(clock.now_hhmm());
            }
        }
    }

    /// Normalize the tag and start stamps, returning the runtime.
    pub fn with_normalized_tag<C: TimerClock>(self, clock: &C) -> (r: Self)
        ensures
            r.phase == self.phase,
            r.remaining_seconds == self.remaining_seconds,
            r.is_running == self.is_running,
            r.work_lock_active == self.work_lock_active,
            r.auto_work_remaining == self.auto_work_remaining,
            !spec_is_blank(self.current_tag@) ==> r.current_tag == self.current_tag,
            spec_is_blank(self.current_tag@) ==> r.current_tag@ == "工作"@,
            self.phase == Phase::Work && self.is_running ==> r.work_started_date is Some
                && r.work_started_time is Some && (self.work_started_date is Some
                ==> r.work_started_date == self.work_started_date) && (self.work_started_time
                is Some ==> r.work_started_time == self.work_started_time),
            !(self.phase == Phase::Work && self.is_running) ==> r.work_started_date
                == self.work_started_date && r.work_started_time == self.work_started_time,
    {
        let mut out = self;
        out.normalize_tag_in_place(clock);
        out
    }

    /// Replace the tag; blank input is normalized to the default tag.
    pub fn set_current_tag<C: TimerClock>(&mut self, tag: String, clock: &C)
        ensures
            final(self).phase == old(self).phase,
            final(self).remaining_seconds == old(self).remaining_seconds,
            final(self).is_running == old(self).is_running,
            final(self).work_lock_active == old(self).work_lock_active,
            final(self).auto_work_remaining == old(self).auto_work_remaining,
            !spec_is_blank(tag@) ==> final(self).current_tag == tag,
            spec_is_blank(tag@) ==> final(self).current_tag@ == "工作"@,
            old(self).phase == Phase::Work && old(self).is_running
                ==> final(self).work_started_date is Some
                && final(self).work_started_time is Some
                && (old(self).work_started_date is Some
                ==> final(self).work_started_date == old(self).work_started_date)
                && (old(self).work_started_time is Some
                ==> final(self).work_started_time == old(self).work_started_time),
            !(old(self).phase == Phase::Work && old(self).is_running)
                ==> final(self).work_started_date == old(self).work_started_date
                && final(self).work_started_time == old(self).work_started_time,
    {
        self.current_tag = tag;
        self.normalize_tag_in_place(clock);
    }

    /// Start the countdown with the given clock strings. See `start`.
    fn start_at(&mut self, settings: &Settings, today: &String, now: &String)
        ensures
            start_at_rel(*old(self), *final(self), today@, now@, *settings),
    {
        if self.is_running {
            return ;
        }
        self.is_running = true;
        if matches!(self.phase, Phase::Work) && !self.work_lock_active {
            self.work_lock_active = true;
            self.work_started_date = Some(clone_string(today));
            self.work_started_time = Some(clone_string(now));
            self.init_auto_work_remaining_if_needed(settings);
        }
    }

    /// Start the countdown; a no-op while already running. The first start
    /// of a work phase captures the start date and time, locks the
    /// blacklist, and arms the auto-continue counter at the start of a
    /// chain.
    pub fn start<C: TimerClock>(&mut self, settings: &Settings, clock: &C)
        ensures
            exists|today: Seq<char>, now: Seq<char>|
                start_at_rel(*old(self), *final(self), today, now, *settings),
            old(self).is_running ==> *final(self) == *old(self),
            final(self).work_lock_active == (old(self).work_lock_active || (!old(self).is_running
                && old(self).phase == Phase::Work)),
            !old(self).is_running ==> final(self).is_running,
    {
        if self.is_running {
            proof {
                let e: Seq<char> = Seq::empty();
                assert(start_at_rel(*old(self), *self, e, e, *settings));
            }
            return ;
        }
        let today = clock.today_date();
        let now = clock.now_hhmm();
        self.start_at(settings, &today, &now);
    }

    /// Stop the countdown; the lock and the captured stamps stay.
    pub fn pause(&mut self)
        ensures
            *final(self) == (TimerRuntime { is_running: false, ..*old(self) }),
    {
        self.is_running = false;
    }

    /// Hard reset: back to a full work phase, not running, lock and
    /// auto-continue cleared. History is untouched.
    pub fn reset(&mut self, settings: &Settings)
        ensures
            final(self).phase == Phase::Work,
            final(self).remaining_seconds == settings.pomodoro * 60,
            !final(self).is_running,
            final(self).current_tag == old(self).current_tag,
            final(self).work_started_date is None,
            final(self).work_started_time is None,
            !final(self).work_lock_active,
            final(self).auto_work_remaining == 0,
    {
        self.phase = Phase::Work;
        self.remaining_seconds = settings.pomodoro as u64 * 60;
        self.is_running = false;
        self.work_started_date = None;
        self.work_started_time = None;
        self.work_lock_active = false;
        self.auto_work_remaining = 0;
    }

    /// Skip to the next phase by the same transition rule as natural
    /// completion, but never write a history record: skipped work is
    /// discarded, the countdown stops and the lock is released.
    pub fn skip(&mut self, settings: &Settings, completed_today: u32)
        ensures
            final(self).phase == next_phase_spec(
                old(self).phase,
                settings.long_break_interval,
                completed_today as int,
            ),
            final(self).remaining_seconds == phase_secs(final(self).phase, *settings),
            !final(self).is_running,
            final(self).current_tag == old(self).current_tag,
            final(self).work_started_date is None,
            final(self).work_started_time is None,
            !final(self).work_lock_active,
            final(self).auto_work_remaining == old(self).auto_work_remaining,
    {
        let next = next_phase(self.phase, settings.long_break_interval, completed_today);
        self.apply_phase(next, settings);
        self.is_running = false;
    }

    /// Apply a phase change: new duration, stamps and lock cleared.
    fn apply_phase(&mut self, phase: Phase, settings: &Settings)
        ensures
            final(self).phase == phase,
            final(self).remaining_seconds == phase_secs(phase, *settings),
            final(self).is_running == old(self).is_running,
            final(self).current_tag == old(self).current_tag,
            final(self).work_started_date is None,
            final(self).work_started_time is None,
            !final(self).work_lock_active,
            final(self).auto_work_remaining == old(self).auto_work_remaining,
    {
        self.phase = phase;
        self.remaining_seconds = phase_seconds(phase, settings);
        self.work_started_date = None;
        self.work_started_time = None;
        self.work_lock_active = false;
    }

    /// Arm the auto-continue counter at the start of a chain: only when the
    /// feature is on and no chain is in progress.
    fn init_auto_work_remaining_if_needed(&mut self, settings: &Settings)
        ensures
            *final(self) == (TimerRuntime {
                auto_work_remaining: if settings.auto_continue_enabled && old(
                    self,
                ).auto_work_remaining == 0 {
                    settings.auto_continue_pomodoros
                } else {
                    old(self).auto_work_remaining
                },
                ..*old(self)
            }),
    {
        if !settings.auto_continue_enabled {
            return ;
        }
        if self.auto_work_remaining > 0 {
            return ;
        }
        self.auto_work_remaining = settings.auto_continue_pomodoros;
    }

    /// Count the auto-continue counter down after a work phase ended.
    fn decrease_auto_work_remaining_after_work_end(&mut self, settings: &Settings)
        ensures
            *final(self) == (TimerRuntime {
                auto_work_remaining: auto_after_work(old(self).auto_work_remaining, *settings),
                ..*old(self)
            }),
    {
        if !settings.auto_continue_enabled {
            self.auto_work_remaining = 0;
            return ;
        }
        if self.auto_work_remaining > 0 {
            self.auto_work_remaining = self.auto_work_remaining - 1;
        }
    }

    /// Decide whether the next phase starts by itself and start it if so:
    /// breaks always do, work only while the auto-continue counter is
    /// armed.
    fn start_next_phase_if_needed(
        &mut self,
        next: Phase,
        settings: &Settings,
        today: &String,
        now: &String,
    ) -> (b: bool)
        ensures
            b == (match next {
                Phase::Work => settings.auto_continue_enabled && old(self).auto_work_remaining > 0,
                Phase::ShortBreak => true,
                Phase::LongBreak => true,
            }),
            b ==> start_at_rel(*old(self), *final(self), today@, now@, *settings),
            !b ==> *final(self) == *old(self),
    {
        match next {
            Phase::ShortBreak | Phase::LongBreak => {
                self.start_at(settings, today, now);
                true
            },
            Phase::Work => {
                if settings.auto_continue_enabled && self.auto_work_remaining > 0 {
                    self.start_at(settings, today, now);
                    true
                } else {
                    false
                }
            },
        }
    }

    /// Write the completing work session into the history: one record,
    /// appended to the day carrying the captured start date (today when
    /// none), the day being created if absent.
    fn append_work_record(&self, data: &mut AppData, today: &String, now: &String) -> (ev:
        WorkCompletedEvent)
        requires
            old(data).history@.len() < usize::MAX,
            total_records(old(data).history@) < u32::MAX,
        ensures
            unchanged_non_history(*old(data), *final(data)),
            history_appended(
                old(data).history@,
                final(data).history@,
                record_date_view(*self, today@),
                *self,
                now@,
                old(data).settings.pomodoro,
                ev,
            ),
    {
        let date: String = match &self.work_started_date {
            Some(d) => clone_string(d),
            None => clone_string(today),
        };
        let start_time: String = match &self.work_started_time {
            Some(t) => clone_string(t),
            None => clone_string(now),
        };
        let record = HistoryRecord {
            tag: clone_string(&self.current_tag),
            start_time,
            end_time: Some(clone_string(now)),
            duration: data.settings.pomodoro,
            phase: Phase::Work,
            remark: String::new(),
        };
        let ghost h0 = data.history@;
        let idx = ensure_day_index(&mut data.history, date.as_str());
        proof {
            if find_day(h0, date@) >= 0 {
                lemma_find_day(h0, date@);
            }
            crate::stats::lemma_total_records_take(h0, idx as int);
            crate::stats::lemma_work_count_le_len(h0[idx as int].records@);
        }
        let record_index = data.history[idx].records.len();
        let stored = clone_record(&record);
        let ghost h1 = data.history@;
        let day = &mut data.history[idx];
        day.records.push(stored);
        proof {
            if find_day(h0, date@) >= 0 {
                assert(data.history@ =~= h1.update(
                    idx as int,
                    HistoryDay {
                        date: h1[idx as int].date,
                        records: data.history@[idx as int].records,
                    },
                ));
                assert(data.history@[idx as int].records@.take(
                    h0[idx as int].records@.len() as int,
                ) =~= h0[idx as int].records@);
            } else {
                assert(data.history@.take(h0.len() as int) =~= h0);
            }
        }
        WorkCompletedEvent { date, record_index, record }
    }

    /// One second of the clock: while running, count down by one; at zero,
    /// end the phase — write the completed work session, advance by the
    /// transition rule, auto-start the next phase where the rules say so,
    /// and send the phase-end and goal notices. Notifier failures are
    /// ignored, so the call always succeeds.
    pub fn tick<C: TimerClock, N: Notifier>(
        &mut self,
        data: &mut AppData,
        clock: &C,
        notifier: &N,
    ) -> (r: Result<TickResult, AppError>)
        requires
            total_records(old(data).history@) < u32::MAX,
            old(data).history@.len() < usize::MAX,
        ensures
            r is Ok,
            exists|today: Seq<char>, now: Seq<char>|
                tick_rel(
                    *old(self),
                    *old(data),
                    today,
                    now,
                    *final(self),
                    *final(data),
                    r->Ok_0,
                ),
    {
        if !self.is_running {
            let t = TickResult {
                history_changed: false,
                phase_ended: false,
                work_auto_started: false,
                work_completed_event: None,
            };
            let res: Result<TickResult, AppError> = Ok(t);
            proof {
                let e: Seq<char> = Seq::empty();
                assert(tick_rel(*old(self), *old(data), e, e, *self, *data, res->Ok_0));
                assert(exists|today: Seq<char>, now: Seq<char>|
                    tick_rel(*old(self), *old(data), today, now, *self, *data, res->Ok_0));
            }
            return res;
        }
        if self.remaining_seconds > 0 {
            self.remaining_seconds = self.remaining_seconds - 1;
        }
        if self.remaining_seconds > 0 {
            let t = TickResult {
                history_changed: false,
                phase_ended: false,
                work_auto_started: false,
                work_completed_event: None,
            };
            let res: Result<TickResult, AppError> = Ok(t);
            proof {
                let e: Seq<char> = Seq::empty();
                assert(tick_rel(*old(self), *old(data), e, e, *self, *data, res->Ok_0));
                assert(exists|today: Seq<char>, now: Seq<char>|
                    tick_rel(*old(self), *old(data), today, now, *self, *data, res->Ok_0));
            }
            return res;
        }
        // The countdown reached zero: end the phase.
        let today = clock.today_date();
        let now = clock.now_hhmm();
        let (week_from, week_to) = clock.current_week_range();
        let ended = self.phase;
        proof {
            lemma_today_le_total(data.history@, today@);
            lemma_week_le_total(data.history@, week_from@, week_to@);
        }
        let completed_today_before = compute_today_stats(data, today.as_str()).total;
        let completed_week_before = compute_week_stats(
            data,
            week_from.as_str(),
            week_to.as_str(),
        ).total;
        let mut history_changed = false;
        let mut work_completed_event: Option<WorkCompletedEvent> = None;
        let mut completed_today_after = completed_today_before;

        if matches!(ended, Phase::Work) {
            let ev = self.append_work_record(data, &today, &now);
            history_changed = true;
            completed_today_after = completed_today_before + 1;
            let completed_week_after = completed_week_before + 1;
            self.decrease_auto_work_remaining_after_work_end(&data.settings);
            work_completed_event = Some(ev);
            let _ = notify_goal_progress_if_needed(
                notifier,
                &data.settings,
                completed_today_before,
                completed_today_after,
                completed_week_before,
                completed_week_after,
            );
        }
        let next = next_phase(ended, data.settings.long_break_interval, completed_today_after);
        self.apply_phase(next, &data.settings);
        self.is_running = false;
        let next_auto_started = self.start_next_phase_if_needed(
            next,
            &data.settings,
            &today,
            &now,
        );
        let _ = notify_phase_end(notifier, ended, next, next_auto_started, &data.settings);
        let t = TickResult {
            history_changed,
            phase_ended: true,
            work_auto_started: matches!(next, Phase::Work) && next_auto_started,
            work_completed_event,
        };
        let res: Result<TickResult, AppError> = Ok(t);
        proof {
            assert(tick_rel(*old(self), *old(data), today@, now@, *self, *data, res->Ok_0));
            assert(exists|a: Seq<char>, b: Seq<char>|
                tick_rel(*old(self), *old(data), a, b, *self, *data, res->Ok_0));
        }
        res
    }

    /// A snapshot built with the system clock.
    pub fn snapshot(&self, data: &AppData) -> (r: TimerSnapshot)
        requires
            total_records(data.history@) <= u32::MAX,
        ensures
            snapshot_ok(*self, *data, r),
    {
        self.snapshot_with_clock(data, &SystemClock)
    }

    /// A snapshot built with an injected clock.
    pub fn snapshot_with_clock<C: TimerClock>(&self, data: &AppData, clock: &C) -> (r:
        TimerSnapshot)
        requires
            total_records(data.history@) <= u32::MAX,
        ensures
            snapshot_ok(*self, *data, r),
    {
        let today = clock.today_date();
        let (week_from, week_to) = clock.current_week_range();
        let today_stats = compute_today_stats(data, today.as_str());
        let week_stats = compute_week_stats(data, week_from.as_str(), week_to.as_str());
        let daily_completed = today_stats.total;
        let weekly_completed = week_stats.total;
        let out = TimerSnapshot {
            phase: self.phase,
            remaining_seconds: self.remaining_seconds,
            is_running: self.is_running,
            current_tag: clone_string(&self.current_tag),
            blacklist_locked: self.blacklist_locked(),
            settings: data.settings,
            today_stats,
            week_stats,
            goal_progress: GoalProgress {
                daily_goal: data.settings.daily_goal,
                daily_completed,
                weekly_goal: data.settings.weekly_goal,
                weekly_completed,
            },
        };
        proof {
            assert(crate::stats::today_stats_for(data.history@, today@, out.today_stats));
            assert(crate::stats::week_stats_for(
                data.history@,
                week_from@,
                week_to@,
                out.week_stats,
            ));
        }
        out
    }
}

/// What a snapshot shows: the runtime's own fields and settings copied
/// through, the lock flag by the locking rule, and goal progress consistent
/// with the statistics shown beside it.
pub open spec fn snapshot_ok(rt: TimerRuntime, data: AppData, r: TimerSnapshot) -> bool {
    &&& r.phase == rt.phase
    &&& r.remaining_seconds == rt.remaining_seconds
    &&& r.is_running == rt.is_running
    &&& r.current_tag@ == rt.current_tag@
    &&& r.blacklist_locked == (rt.phase == Phase::Work && rt.work_lock_active)
    &&& r.settings == data.settings
    &&& r.goal_progress.daily_goal == data.settings.daily_goal
    &&& r.goal_progress.weekly_goal == data.settings.weekly_goal
    &&& r.goal_progress.daily_completed == r.today_stats.total
    &&& r.goal_progress.weekly_completed == r.week_stats.total
    &&& crate::stats::tally_wf(r.today_stats.by_tag@)
    &&& crate::stats::tally_wf(r.week_stats.by_tag@)
    &&& exists|today: Seq<char>|
        #[trigger] crate::stats::today_stats_for(data.history@, today, r.today_stats)
    &&& exists|from: Seq<char>, to: Seq<char>|
        #[trigger] crate::stats::week_stats_for(data.history@, from, to, r.week_stats)
}

/// A fresh placeholder runtime, only for callers that need to move a
/// runtime out of a slot. Not a state the engine produces by itself.
impl Default for TimerRuntime {
    /// A stopped work phase with no time left and the default tag.
    fn default() -> (r: Self)
        ensures
            r.phase == Phase::Work,
            r.remaining_seconds == 0,
            !r.is_running,
            r.current_tag@ == "工作"@,
            r.work_started_date is None,
            r.work_started_time is None,
            !r.work_lock_active,
            r.auto_work_remaining == 0,
    {
        TimerRuntime {
            phase: Phase::Work,
            remaining_seconds: 0,
            is_running: false,
            current_tag: "工作".to_owned(),
            work_started_date: None,
            work_started_time: None,
            work_lock_active: false,
            auto_work_remaining: 0,
        }
    }
}

/// A copy of a record with the same contents.
pub fn clone_record(r: &HistoryRecord) -> (c: HistoryRecord)
    ensures
        c.tag@ == r.tag@,
        c.start_time@ == r.start_time@,
        (match (c.end_time, r.end_time) {
            (Some(a), Some(b)) => a@ == b@,
            (None, None) => true,
            _ => false,
        }),
        c.duration == r.duration,
        c.phase == r.phase,
        c.remark@ == r.remark@,
{
    HistoryRecord {
        tag: clone_string(&r.tag),
        start_time: clone_string(&r.start_time),
        end_time: match &r.end_time {
            Some(e) => Some(clone_string(e)),
            None => None,
        },
        duration: r.duration,
        phase: r.phase,
        remark: clone_string(&r.remark),
    }
}


// ---------------------------------------------------------------------------
// Laws of the tick relation
// ---------------------------------------------------------------------------

/// While running above one second, a tick counts down by exactly one and
/// reports no phase change; nothing else moves.
pub proof fn lemma_tick_counts_down(
    pre: TimerRuntime,
    pre_data: AppData,
    today: Seq<char>,
    now: Seq<char>,
    post: TimerRuntime,
    post_data: AppData,
    t: TickResult,
)
    requires
        tick_rel(pre, pre_data, today, now, post, post_data, t),
        pre.is_running,
        pre.remaining_seconds > 1,
    ensures
        post.remaining_seconds == pre.remaining_seconds - 1,
        post.phase == pre.phase,
        post.is_running,
        post.work_lock_active == pre.work_lock_active,
        post_data == pre_data,
        !t.phase_ended,
        !t.history_changed,
{
}

/// A tick while paused mutates nothing: not the countdown, not the phase,
/// not the history.
pub proof fn lemma_tick_paused_is_noop(
    pre: TimerRuntime,
    pre_data: AppData,
    today: Seq<char>,
    now: Seq<char>,
    post: TimerRuntime,
    post_data: AppData,
    t: TickResult,
)
    requires
        tick_rel(pre, pre_data, today, now, post, post_data, t),
        !pre.is_running,
    ensures
        post == pre,
        post_data == pre_data,
        !t.phase_ended,
        !t.history_changed,
        !t.work_auto_started,
        t.work_completed_event is None,
{
}

/// The transition rule at a phase end: a work phase whose completion makes
/// the day's total a nonzero multiple of the long-break interval moves to
/// the long break, any other work completion to the short break, and any
/// break back to work.
pub proof fn lemma_tick_phase_transition(
    pre: TimerRuntime,
    pre_data: AppData,
    today: Seq<char>,
    now: Seq<char>,
    post: TimerRuntime,
    post_data: AppData,
    t: TickResult,
)
    requires
        tick_rel(pre, pre_data, today, now, post, post_data, t),
        pre.is_running,
        pre.remaining_seconds <= 1,
    ensures
        t.phase_ended,
        pre.phase == Phase::Work ==> post.phase == next_phase_spec(
            Phase::Work,
            pre_data.settings.long_break_interval,
            today_total(pre_data.history@, today) as int + 1,
        ),
        pre.phase != Phase::Work ==> post.phase == Phase::Work,
        post.remaining_seconds == phase_secs(post.phase, pre_data.settings),
{
    let s = pre_data.settings;
    let ended = pre.phase;
    let before = today_total(pre_data.history@, today) as int;
    let after = if ended == Phase::Work { before + 1 } else { before };
    let next = next_phase_spec(ended, s.long_break_interval, after);
    let auto1 = if ended == Phase::Work {
        auto_after_work(pre.auto_work_remaining, s)
    } else {
        pre.auto_work_remaining
    };
    let cleared = TimerRuntime {
        phase: next,
        remaining_seconds: phase_secs(next, s) as u64,
        is_running: false,
        current_tag: pre.current_tag,
        work_started_date: None,
        work_started_time: None,
        work_lock_active: false,
        auto_work_remaining: auto1,
    };
    let started = match next {
        Phase::Work => s.auto_continue_enabled && auto1 > 0,
        Phase::ShortBreak => true,
        Phase::LongBreak => true,
    };
    if started {
        assert(start_at_rel(cleared, post, today, now, s));
        assert(post.phase == cleared.phase);
    } else {
        assert(post == cleared);
    }
}

/// The blacklist lock is only ever held during a work phase: a tick
/// preserves the invariant, whatever the clock handed back.
pub proof fn lemma_tick_preserves_lock_invariant(
    pre: TimerRuntime,
    pre_data: AppData,
    today: Seq<char>,
    now: Seq<char>,
    post: TimerRuntime,
    post_data: AppData,
    t: TickResult,
)
    requires
        tick_rel(pre, pre_data, today, now, post, post_data, t),
        pre.work_lock_active ==> pre.phase == Phase::Work,
    ensures
        post.work_lock_active ==> post.phase == Phase::Work,
{
    if pre.is_running && pre.remaining_seconds <= 1 {
        let s = pre_data.settings;
        let ended = pre.phase;
        let before = today_total(pre_data.history@, today) as int;
        let after = if ended == Phase::Work { before + 1 } else { before };
        let next = next_phase_spec(ended, s.long_break_interval, after);
        let auto1 = if ended == Phase::Work {
            auto_after_work(pre.auto_work_remaining, s)
        } else {
            pre.auto_work_remaining
        };
        let cleared = TimerRuntime {
            phase: next,
            remaining_seconds: phase_secs(next, s) as u64,
            is_running: false,
            current_tag: pre.current_tag,
            work_started_date: None,
            work_started_time: None,
            work_lock_active: false,
            auto_work_remaining: auto1,
        };
        let started = match next {
            Phase::Work => s.auto_continue_enabled && auto1 > 0,
            Phase::ShortBreak => true,
            Phase::LongBreak => true,
        };
        if started {
            assert(start_at_rel(cleared, post, today, now, s));
        }
    }
}

/// A natural work completion appends exactly one record to the history.
pub proof fn lemma_tick_work_appends_one(
    pre: TimerRuntime,
    pre_data: AppData,
    today: Seq<char>,
    now: Seq<char>,
    post: TimerRuntime,
    post_data: AppData,
    t: TickResult,
)
    requires
        tick_rel(pre, pre_data, today, now, post, post_data, t),
        pre.is_running,
        pre.remaining_seconds <= 1,
        pre.phase == Phase::Work,
    ensures
        total_records(post_data.history@) == total_records(pre_data.history@) + 1,
        t.history_changed,
        t.work_completed_event is Some,
{
    let h0 = pre_data.history@;
    let h1 = post_data.history@;
    let date = record_date_view(pre, today);
    let i = find_day(h0, date);
    lemma_find_day(h0, date);
    if i >= 0 {
        assert(h1 =~= h0.update(i, h1[i]));
        crate::stats::lemma_total_records_update(h0, i, h1[i]);
    } else {
        assert(forall|j: int| 0 <= j < h0.len() ==> #[trigger] h1[j] == h0[j]);
        assert(h1 =~= h0.push(h1.last()));
        crate::stats::lemma_total_records_push(h0, h1.last());
    }
}

/// A tick that does not complete a work phase never writes a record:
/// whether paused, counting down, or ending a break, the history stays as
/// it was. (Skipping cannot write either: `skip` does not touch the data.)
pub proof fn lemma_tick_no_work_no_record(
    pre: TimerRuntime,
    pre_data: AppData,
    today: Seq<char>,
    now: Seq<char>,
    post: TimerRuntime,
    post_data: AppData,
    t: TickResult,
)
    requires
        tick_rel(pre, pre_data, today, now, post, post_data, t),
        !(pre.is_running && pre.remaining_seconds <= 1 && pre.phase == Phase::Work),
    ensures
        post_data.history == pre_data.history,
        !t.history_changed,
        t.work_completed_event is None,
{
}

} // verus!
