//! Core engine of a pomodoro focus timer: phase state machine, streak
//! tracking, daily/weekly statistics and goal-threshold notifications.
//!
//! The engine is deterministic: time and notification delivery are injected
//! through the `TimerClock` and `Notifier` capability traits, so every state
//! transition is a pure function of the current state and the injected values.

pub mod clock;
pub mod combo;
pub mod dates;
pub mod errors;
pub mod analysis;
pub mod app_data;
pub mod audio;
pub mod events;
pub mod export;
pub mod notification;
pub mod runtime;
pub mod stats;
pub mod strutil;
pub mod validation;
