//! The outcome of awaiting a future inside a cancelable task.

use vstd::prelude::*;

verus! {

/// `AwaitResult` is what a cancelable await gives back: either the current
/// task has been canceled ([`AwaitResult::Canceled`]) or the awaited future
/// completed with a value ([`AwaitResult::Completed`]).
#[derive(Debug, Eq, PartialEq)]
pub enum AwaitResult<T> {
    /// Current task is canceled.
    Canceled,
    /// Future is completed with value `T`.
    Completed(T),
}

impl<T> AwaitResult<T> {
    /// Returns `true` if current task has been canceled.
    pub fn is_canceled(&self) -> (r: bool)
        ensures
            r == (*self is Canceled),
    {
        match self {
            AwaitResult::Canceled => true,
            _ => false,
        }
    }

    /// Returns `true` if the future is completed.
    pub fn is_completed(&self) -> (r: bool)
        ensures
            r == (*self is Completed),
    {
        !self.is_canceled()
    }

    /// Converts `AwaitResult<T>` to [`Option<T>`], consuming self.
    pub fn result(self) -> (r: Option<T>)
        ensures
            match self {
                AwaitResult::Canceled => r is None,
                AwaitResult::Completed(v) => r == Some(v),
            },
    {
        match self {
            AwaitResult::Canceled => None,
            AwaitResult::Completed(res) => Some(res),
        }
    }

    /// Settles a cancelable await whose future has finished with `value`:
    /// a cancellation request seen at that moment wins over the value.
    pub fn settle(value: T, cancel_requested: bool) -> (r: AwaitResult<T>)
        ensures
            cancel_requested ==> r is Canceled,
            !cancel_requested ==> r == AwaitResult::Completed(value),
    {
        if cancel_requested {
            AwaitResult::Canceled
        } else {
            AwaitResult::Completed(value)
        }
    }
}

} // verus!
