//! `coachman`: bookkeeping for cancelable asynchronous tasks.
//!
//! The library keeps the state that a task manager decides on: which tasks
//! are supervised under which keys, which of them were asked to cancel, how
//! many may run at once, and how the outcome of a finished task is reported.
//! The asynchronous plumbing that polls futures runs around it.

pub mod await_result;
pub mod manager;
pub mod storage;
pub mod task;

pub use await_result::AwaitResult::{self, Canceled, Completed};
pub use manager::{CompletionEvent, TaskManager, TaskManagerBuilder, TaskManagerError};
pub use task::{TaskError, TaskHandle};
