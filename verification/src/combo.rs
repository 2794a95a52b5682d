//! The combo streak: consecutive work completions where each session
//! started within the grace window after the previous completion. Times are
//! modeled as minute stamps parsed from the clock's `YYYY-MM-DD` and
//! `HH:mm` strings, so the window check is exact across day boundaries.

use vstd::prelude::*;
use vstd::string::StringExecFns;

use crate::app_data::AppData;
use crate::app_data::Phase;
use crate::app_data::Settings;
use crate::clock::TimerClock;
use crate::dates::hhmm_ok;
use crate::dates::lemma_minute_stamp_bounds;
use crate::dates::minute_stamp;
use crate::dates::minute_stamp_exec;
use crate::dates::parse_hhmm;
use crate::dates::parse_ymd;
use crate::dates::ymd_ok;
use crate::errors::AppError;
use crate::errors::AppResult;

verus! {

/// Extra minutes allowed on top of the expected break when judging whether
/// a work session continues the streak.
pub const COMBO_GRACE_MINUTES: u32 = 5;

/// The streak's running state, kept beside the timer and consulted at work
/// start and work completion.
#[derive(Debug, Clone)]
pub struct ComboRuntime {
    /// Minute stamp of the previous natural work completion.
    pub last_completed_at: Option<u64>,
    /// Length in minutes of the break that followed that completion.
    pub last_expected_break_minutes: u32,
    /// Whether the work session now in progress started within the window,
    /// decided at start and consumed at completion.
    pub current_work_is_continuation: bool,
}

impl Default for ComboRuntime {
    /// No prior completion: the streak has not begun.
    fn default() -> (r: Self)
        ensures
            r.last_completed_at is None,
            r.last_expected_break_minutes == 0,
            !r.current_work_is_continuation,
    {
        ComboRuntime {
            last_completed_at: None,
            last_expected_break_minutes: 0,
            current_work_is_continuation: false,
        }
    }
}

/// Whether both clock strings are well-formed.
pub open spec fn clock_strings_ok(today: Seq<char>, now: Seq<char>) -> bool {
    ymd_ok(today) && hhmm_ok(now)
}

/// The error owed for malformed clock strings: the date is blamed first.
pub open spec fn clock_error_ok(today: Seq<char>, now: Seq<char>, e: AppError) -> bool {
    if !ymd_ok(today) {
        e matches AppError::Invariant(m) && m@ == "TimerClock.today_date 返回非法日期："@ + today
    } else {
        e matches AppError::Invariant(m) && m@ == "TimerClock.now_hhmm 返回非法时间："@ + now
    }
}

/// Whether a session starting at `now_stamp` continues a streak whose last
/// completion was at `last`, given the expected break length: it started no
/// earlier than the completion and within the break plus the grace window.
pub open spec fn continuation_ok(last: int, expected_break_minutes: int, now_stamp: int) -> bool {
    0 <= now_stamp - last <= expected_break_minutes + COMBO_GRACE_MINUTES
}

/// What `on_work_started` does, given the clock strings: with a prior
/// completion on record, the continuation flag becomes exactly the window
/// check; without one, it clears. Malformed clock strings leave the state
/// alone and report an invariant error.
pub open spec fn work_started_rel(
    pre: ComboRuntime,
    post: ComboRuntime,
    today: Seq<char>,
    now: Seq<char>,
    r: AppResult<()>,
) -> bool {
    &&& post.last_completed_at == pre.last_completed_at
    &&& post.last_expected_break_minutes == pre.last_expected_break_minutes
    &&& if clock_strings_ok(today, now) {
        &&& r is Ok
        &&& match pre.last_completed_at {
            None => !post.current_work_is_continuation,
            Some(last) => post.current_work_is_continuation == continuation_ok(
                last as int,
                pre.last_expected_break_minutes as int,
                minute_stamp(today, now),
            ),
        }
    } else {
        &&& r matches Err(e) && clock_error_ok(today, now, e)
        &&& post.current_work_is_continuation == pre.current_work_is_continuation
    }
}

/// The streak value after a completion: a broken or fresh streak restarts
/// at one, a continued streak grows by one (saturating).
pub open spec fn next_combo_spec(current: u32, continuation: bool) -> u32 {
    if current == 0 {
        1
    } else if continuation {
        if current == u32::MAX {
            u32::MAX
        } else {
            (current + 1) as u32
        }
    } else {
        1
    }
}

/// The break length that is about to follow a completion.
pub open spec fn expected_break_minutes(expected_break: Phase, s: Settings) -> u32 {
    match expected_break {
        Phase::ShortBreak => s.short_break,
        Phase::LongBreak => s.long_break,
        Phase::Work => 0,
    }
}

/// What `on_work_completed` does, given the clock strings: the persisted
/// streak becomes `next_combo_spec`, the continuation flag is consumed,
/// and — when the clock strings parse — the completion stamp and the
/// upcoming break length are recorded for the next window check. Malformed
/// clock strings still update the persisted streak and clear the flag, but
/// leave the timing memory alone and report an invariant error.
pub open spec fn work_completed_rel(
    pre: ComboRuntime,
    pre_data: AppData,
    post: ComboRuntime,
    post_data: AppData,
    today: Seq<char>,
    now: Seq<char>,
    expected_break: Phase,
    s: Settings,
    r: AppResult<u32>,
) -> bool {
    let nc = next_combo_spec(pre_data.current_combo, pre.current_work_is_continuation);
    &&& post_data == (AppData { current_combo: nc, ..pre_data })
    &&& !post.current_work_is_continuation
    &&& if clock_strings_ok(today, now) {
        &&& r matches Ok(v) && v == nc
        &&& post.last_completed_at matches Some(m) && m == minute_stamp(today, now)
        &&& post.last_expected_break_minutes == expected_break_minutes(expected_break, s)
    } else {
        &&& r matches Err(e) && clock_error_ok(today, now, e)
        &&& post.last_completed_at == pre.last_completed_at
        &&& post.last_expected_break_minutes == pre.last_expected_break_minutes
    }
}

/// Parse the clock's strings into a minute stamp, or the error owed.
fn read_clock_stamp(today: &String, now: &String) -> (r: Result<u64, AppError>)
    ensures
        clock_strings_ok(today@, now@) ==> (r matches Ok(m) && m == minute_stamp(today@, now@)),
        !clock_strings_ok(today@, now@) ==> (r matches Err(e) && clock_error_ok(today@, now@, e)),
{
    let parsed_date = parse_ymd(today.as_str());
    let (y, mo, d) = match parsed_date {
        Some(t) => t,
        None => {
            let mut msg = String::new();
            msg.append("TimerClock.today_date 返回非法日期：");
            msg.append(today.as_str());
            return Err(AppError::Invariant(msg));
        },
    };
    let parsed_time = parse_hhmm(now.as_str());
    let (h, mi) = match parsed_time {
        Some(t) => t,
        None => {
            let mut msg = String::new();
            msg.append("TimerClock.now_hhmm 返回非法时间：");
            msg.append(now.as_str());
            return Err(AppError::Invariant(msg));
        },
    };
    proof {
        lemma_minute_stamp_bounds(today@, now@);
    }
    Ok(minute_stamp_exec(y, mo, d, h, mi))
}

impl ComboRuntime {
    /// A fresh streak state with no prior completion.
    pub fn new() -> (r: Self)
        ensures
            r.last_completed_at is None,
            r.last_expected_break_minutes == 0,
            !r.current_work_is_continuation,
    {
        ComboRuntime::default()
    }

    /// Decide, at the first start of a work session, whether its completion
    /// will continue the streak: it does exactly when it starts within the
    /// previous break plus the grace window after the prior completion.
    pub fn on_work_started<C: TimerClock>(&mut self, clock: &C) -> (r: AppResult<()>)
        ensures
            exists|today: Seq<char>, now: Seq<char>|
                work_started_rel(*old(self), *final(self), today, now, r),
    {
        let today = clock.today_date();
        let now = clock.now_hhmm();
        let stamp = match read_clock_stamp(&today, &now) {
            Ok(m) => m,
            Err(e) => {
                let r: AppResult<()> = Err(e);
                proof {
                    assert(work_started_rel(*old(self), *self, today@, now@, r));
                    assert(exists|a: Seq<char>, b: Seq<char>|
                        work_started_rel(*old(self), *self, a, b, r));
                }
                return r;
            },
        };
        match self.last_completed_at {
            None => {
                self.current_work_is_continuation = false;
            },
            Some(last) => {
                let allowed: u64 = self.last_expected_break_minutes as u64
                    + COMBO_GRACE_MINUTES as u64;
                self.current_work_is_continuation = stamp >= last && stamp - last <= allowed;
            },
        }
        let r: AppResult<()> = Ok(());
        proof {
            assert(work_started_rel(*old(self), *self, today@, now@, r));
            assert(exists|a: Seq<char>, b: Seq<char>|
                work_started_rel(*old(self), *self, a, b, r));
        }
        r
    }

    /// Update the persisted streak at a natural work completion: restart at
    /// one after a break in the chain, grow by one otherwise, and remember
    /// when this completion happened and how long the upcoming break is.
    pub fn on_work_completed<C: TimerClock>(
        &mut self,
        data: &mut AppData,
        clock: &C,
        expected_break: Phase,
        settings: &Settings,
    ) -> (r: AppResult<u32>)
        ensures
            exists|today: Seq<char>, now: Seq<char>|
                work_completed_rel(
                    *old(self),
                    *old(data),
                    *final(self),
                    *final(data),
                    today,
                    now,
                    expected_break,
                    *settings,
                    r,
                ),
    {
        let next_combo: u32 = if data.current_combo == 0 {
            1
        } else if self.current_work_is_continuation {
            if data.current_combo == u32::MAX {
                u32::MAX
            } else {
                data.current_combo + 1
            }
        } else {
            1
        };
        data.current_combo = next_combo;
        self.current_work_is_continuation = false;

        let today = clock.today_date();
        let now = clock.now_hhmm();
        let stamp = match read_clock_stamp(&today, &now) {
            Ok(m) => m,
            Err(e) => {
                let r: AppResult<u32> = Err(e);
                proof {
                    assert(work_completed_rel(
                        *old(self),
                        *old(data),
                        *self,
                        *data,
                        today@,
                        now@,
                        expected_break,
                        *settings,
                        r,
                    ));
                    assert(exists|a: Seq<char>, b: Seq<char>|
                        work_completed_rel(
                            *old(self),
                            *old(data),
                            *self,
                            *data,
                            a,
                            b,
                            expected_break,
                            *settings,
                            r,
                        ));
                }
                return r;
            },
        };
        self.last_completed_at = Some(stamp);
        self.last_expected_break_minutes = match expected_break {
            Phase::ShortBreak => settings.short_break,
            Phase::LongBreak => settings.long_break,
            Phase::Work => 0,
        };
        let r: AppResult<u32> = Ok(next_combo);
        proof {
            assert(work_completed_rel(
                *old(self),
                *old(data),
                *self,
                *data,
                today@,
                now@,
                expected_break,
                *settings,
                r,
            ));
            assert(exists|a: Seq<char>, b: Seq<char>|
                work_completed_rel(
                    *old(self),
                    *old(data),
                    *self,
                    *data,
                    a,
                    b,
                    expected_break,
                    *settings,
                    r,
                ));
        }
        r
    }

    /// Break the streak: an abandoned work session resets the persisted
    /// counter to zero and clears all timing memory.
    pub fn on_interrupted(&mut self, data: &mut AppData)
        ensures
            *final(data) == (AppData { current_combo: 0, ..*old(data) }),
            final(self).last_completed_at is None,
            final(self).last_expected_break_minutes == 0,
            !final(self).current_work_is_continuation,
    {
        data.current_combo = 0;
        self.last_completed_at = None;
        self.last_expected_break_minutes = 0;
        self.current_work_is_continuation = false;
    }
}

/// The combo window law: with a prior completion on record and a live
/// streak, a work session started more than "previous break plus grace"
/// minutes after that completion (or before it) completes with the streak
/// reset to one, and a session started inside the window completes with
/// the streak grown by one.
pub proof fn lemma_combo_window(
    pre: ComboRuntime,
    mid: ComboRuntime,
    start_today: Seq<char>,
    start_now: Seq<char>,
    r1: AppResult<()>,
    pre_data: AppData,
    post: ComboRuntime,
    post_data: AppData,
    end_today: Seq<char>,
    end_now: Seq<char>,
    expected_break: Phase,
    s: Settings,
    r2: AppResult<u32>,
)
    requires
        work_started_rel(pre, mid, start_today, start_now, r1),
        clock_strings_ok(start_today, start_now),
        pre.last_completed_at is Some,
        work_completed_rel(mid, pre_data, post, post_data, end_today, end_now, expected_break, s, r2),
        pre_data.current_combo > 0,
        pre_data.current_combo < u32::MAX,
    ensures
        !continuation_ok(
            pre.last_completed_at->0 as int,
            pre.last_expected_break_minutes as int,
            minute_stamp(start_today, start_now),
        ) ==> post_data.current_combo == 1,
        continuation_ok(
            pre.last_completed_at->0 as int,
            pre.last_expected_break_minutes as int,
            minute_stamp(start_today, start_now),
        ) ==> post_data.current_combo == pre_data.current_combo + 1,
{
}

} // verus!
