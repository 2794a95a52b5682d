//! Event payloads handed to the surrounding shell when a pomodoro
//! completes, and the milestone rule deciding when the lifetime total is
//! worth announcing.

use vstd::prelude::*;

verus! {

/// Payload of the completion event: the streak, the lifetime total, and
/// whether this completion first reached the daily goal.
#[derive(Debug, Clone, Copy, PartialEq, Eq, Structural)]
pub struct PomodoroCompletedPayload {
    /// The streak after this completion.
    pub combo: u32,
    /// The lifetime number of completed pomodoros.
    pub total: u64,
    /// Whether this completion first reached the daily goal.
    pub daily_goal_reached: bool,
}

/// Payload of the milestone event.
#[derive(Debug, Clone, Copy, PartialEq, Eq, Structural)]
pub struct MilestoneReachedPayload {
    /// The milestone value reached.
    pub milestone: u64,
}

/// Whether a lifetime total is a milestone worth announcing.
pub open spec fn is_milestone(total: u64) -> bool {
    total == 100 || total == 500 || total == 1000
}

/// The milestone event owed for a lifetime total: exactly at one hundred,
/// five hundred and one thousand completions, and nowhere else.
pub fn milestone_reached(total: u64) -> (r: Option<MilestoneReachedPayload>)
    ensures
        is_milestone(total) ==> (r matches Some(p) && p.milestone == total),
        !is_milestone(total) ==> r is None,
{
    if total == 100 || total == 500 || total == 1000 {
        Some(MilestoneReachedPayload { milestone: total })
    } else {
        None
    }
}

/// Whether this completion first reached the daily goal: the goal is set
/// and the day's total after the completion equals it.
pub fn daily_goal_first_reached(daily_goal: u32, completed_today_after: u32) -> (r: bool)
    ensures
        r == (daily_goal > 0 && completed_today_after == daily_goal),
{
    daily_goal > 0 && completed_today_after == daily_goal
}

} // verus!
