//! Unified error type of the engine.

use vstd::prelude::*;

verus! {

/// Errors surfaced by the engine.
///
/// `Validation` reports input that is outside the allowed ranges, checked
/// before any state is mutated. `Invariant` reports an internal contract
/// violation, such as an injected clock handing back a malformed date.
/// `Notification` carries a message from a failing notifier backend;
/// such failures never roll back a state transition.
/// `BlacklistLocked` rejects shrinking the process blacklist while a work
/// session is active.
#[derive(Debug)]
pub enum AppError {
    /// Input outside the allowed numeric ranges or malformed.
    Validation(String),
    /// The blacklist may not shrink while a work session is active.
    BlacklistLocked,
    /// An internal contract was broken, e.g. by a misbehaving clock.
    Invariant(String),
    /// A notification backend failed; non-fatal to the engine.
    Notification(String),
}

impl AppError {
    /// Human-readable message, in place of a `Display` impl.
    pub fn message(&self) -> (r: String)
        ensures
            r@ == self.spec_message(),
    {
        match self {
            AppError::Validation(m) => {
                let mut s = String::new();
                s.append("参数不合法：");
                s.append(m.as_str());
                s
            },
            AppError::BlacklistLocked => {
                let mut s = String::new();
                s.append("专注期内禁止移除黑名单进程");
                s
            },
            AppError::Invariant(m) => {
                let mut s = String::new();
                s.append("内部错误：");
                s.append(m.as_str());
                s
            },
            AppError::Notification(m) => {
                let mut s = String::new();
                s.append("通知失败：");
                s.append(m.as_str());
                s
            },
        }
    }

    /// The message as a sequence of characters.
    pub open spec fn spec_message(&self) -> Seq<char> {
        match self {
            AppError::Validation(m) => "参数不合法："@ + m@,
            AppError::BlacklistLocked => "专注期内禁止移除黑名单进程"@,
            AppError::Invariant(m) => "内部错误："@ + m@,
            AppError::Notification(m) => "通知失败："@ + m@,
        }
    }
}

/// Result alias used across the engine.
pub type AppResult<T> = Result<T, AppError>;

} // verus!
