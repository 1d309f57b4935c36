//! Cancelable task handles and the errors a finished task reports.
//!
//! A task is spawned on the runtime together with a cancellation channel.
//! Its [`TaskHandle`] keeps the runtime's join handle, the sending end of the
//! channel and whether cancellation was requested through this handle; the
//! latter decides how the task's completion is reported.

use vstd::prelude::*;

verus! {

#[verifier::external_type_specification]
#[verifier::external_body]
#[verifier::reject_recursive_types(T)]
pub struct ExJoinHandle<T>(tokio::task::JoinHandle<T>);

#[verifier::external_type_specification]
#[verifier::external_body]
pub struct ExJoinError(tokio::task::JoinError);

#[verifier::external_type_specification]
#[verifier::external_body]
#[verifier::reject_recursive_types(T)]
pub struct ExWatchSender<T>(tokio::sync::watch::Sender<T>);

/// Task execution error. It is reported when a [`TaskHandle`]'s task did not
/// complete normally; the exit reason can be fetched from it.
#[derive(Debug)]
pub enum TaskError {
    /// Task has been canceled using [`TaskHandle::cancel`].
    Canceled,
    /// Task has been aborted using [`TaskHandle::abort`].
    Aborted,
    /// Task panicked. The runtime's join error carries the object with which
    /// the task panicked (`JoinError::into_panic`).
    Panicked(tokio::task::JoinError),
}

impl TaskError {
    /// Classifies a failed join: a join error that stems from a panic is
    /// reported as [`TaskError::Panicked`], any other as
    /// [`TaskError::Aborted`].
    pub fn from_join_failure(error: tokio::task::JoinError, panicked: bool) -> (r: TaskError)
        ensures
            panicked ==> r == TaskError::Panicked(error),
            !panicked ==> r is Aborted,
    {
        if panicked {
            TaskError::Panicked(error)
        } else {
            TaskError::Aborted
        }
    }
}

/// Whether a join error stems from the task panicking (rather than from its
/// abortion): a function of the error alone, which tokio decides.
pub uninterp spec fn join_error_panicked(error: tokio::task::JoinError) -> bool;

/// `JoinError::is_panic`: whether the task ended by panicking. The answer is
/// the name [`join_error_panicked`] of the error.
#[verifier::external_body]
fn join_error_is_panic(error: &tokio::task::JoinError) -> (r: bool)
    ensures
        r == join_error_panicked(*error),
{
    error.is_panic()
}

/// `JoinHandle::is_finished`: whether the task has terminated. The answer
/// depends on how far the runtime has run the task, so nothing is claimed.
#[verifier::external_body]
fn join_handle_is_finished<T>(handle: &tokio::task::JoinHandle<T>) -> bool {
    handle.is_finished()
}

/// `JoinHandle::abort`: asks the runtime to abort the task. The effect lies
/// with the runtime; nothing is claimed.
#[verifier::external_body]
fn abort_join_handle<T>(handle: &tokio::task::JoinHandle<T>) {
    handle.abort();
}

/// `watch::Sender::send`: publishes `value` on the task's cancellation
/// channel and gives back the value it published. The send fails only when
/// the task side has gone; its result is ignored, as the task has then
/// nothing left to cancel. What the channel holds is shared with the running
/// task, so nothing more is claimed.
#[verifier::external_body]
fn watch_send(sender: &tokio::sync::watch::Sender<bool>, value: bool) -> (published: bool)
    ensures
        published == value,
{
    let _ = sender.send(value);
    value
}

/// How a finished task is reported, from whether its cancellation was
/// requested and what its join handle gave back: a task that ran to
/// completion after cancellation was requested counts as canceled, one that
/// ran to completion otherwise gives its value, and a failed join is
/// reported as a panic (with the join error) when the task panicked and as
/// an abortion otherwise.
pub open spec fn settled<T>(
    cancel_requested: bool,
    joined: Result<T, tokio::task::JoinError>,
    r: Result<T, TaskError>,
) -> bool {
    match joined {
        Ok(v) => if cancel_requested {
            r matches Err(TaskError::Canceled)
        } else {
            r == Ok::<T, TaskError>(v)
        },
        Err(e) => if join_error_panicked(e) {
            r == Err::<T, TaskError>(TaskError::Panicked(e))
        } else {
            r matches Err(TaskError::Aborted)
        },
    }
}

/// `post` is the handle `pre` after a cancellation request: the same join
/// handle and cancellation sender, `true` published on the task's
/// cancellation channel whatever was published before, and nothing else
/// changed.
pub open spec fn canceled_from<T>(pre: TaskHandle<T>, post: TaskHandle<T>) -> bool {
    &&& post.join_handle() == pre.join_handle()
    &&& post.cancel_event_sender() == pre.cancel_event_sender()
    &&& post.cancel_requested()
    &&& post.abort_requested() == pre.abort_requested()
    &&& post.finished_reported() == pre.finished_reported()
}

/// Whether cancellation was requested through a handle, and the value that
/// the handle last published on the task's cancellation channel; the two
/// always agree.
struct CancelState {
    requested: bool,
    published: Ghost<bool>,
}

impl CancelState {
    /// What the handle published is what was requested.
    #[verifier::type_invariant]
    spec fn published_as_requested(&self) -> bool {
        self.requested == self.published@
    }
}

/// A task handle that allows to get the task result when the task is
/// completed or to cancel it if necessary.
#[verifier::reject_recursive_types(T)]
pub struct TaskHandle<T> {
    handle: tokio::task::JoinHandle<T>,
    cancel_event_sender: tokio::sync::watch::Sender<bool>,
    cancel: CancelState,
    abort_requested: Ghost<bool>,
    finished_reported: Ghost<bool>,
}

impl<T> TaskHandle<T> {
    /// Whether cancellation was requested through this handle: the value
    /// that the handle last published on the task's cancellation channel
    /// (`false` before it published any).
    pub closed spec fn cancel_requested(&self) -> bool {
        self.cancel.published@
    }

    /// Whether abortion of the task was requested from the runtime through
    /// [`TaskHandle::request_abort`].
    pub closed spec fn abort_requested(&self) -> bool {
        self.abort_requested@
    }

    /// Whether the runtime has reported the task terminated when asked
    /// through [`TaskHandle::check_finished`].
    pub closed spec fn finished_reported(&self) -> bool {
        self.finished_reported@
    }

    /// The runtime's join handle of the task.
    pub closed spec fn join_handle(&self) -> tokio::task::JoinHandle<T> {
        self.handle
    }

    /// The sending end of the task's cancellation channel.
    pub closed spec fn cancel_event_sender(&self) -> tokio::sync::watch::Sender<bool> {
        self.cancel_event_sender
    }

    /// Wraps a freshly spawned task: its runtime join handle and the sending
    /// end of its cancellation channel. No cancellation is requested yet.
    pub fn new(
        handle: tokio::task::JoinHandle<T>,
        cancel_event_sender: tokio::sync::watch::Sender<bool>,
    ) -> (r: TaskHandle<T>)
        ensures
            r.join_handle() == handle,
            r.cancel_event_sender() == cancel_event_sender,
            !r.cancel_requested(),
            !r.abort_requested(),
            !r.finished_reported(),
    {
        TaskHandle {
            handle,
            cancel_event_sender,
            cancel: CancelState { requested: false, published: Ghost(false) },
            abort_requested: Ghost(false),
            finished_reported: Ghost(false),
        }
    }

    /// Whether the task has terminated, as the runtime sees it now.
    pub fn is_finished(&self) -> bool {
        join_handle_is_finished(&self.handle)
    }

    /// Asks the runtime whether the task has terminated, and records a
    /// positive answer in the handle.
    pub fn check_finished(&mut self) -> (r: bool)
        ensures
            final(self).finished_reported() == (old(self).finished_reported() || r),
            final(self).join_handle() == old(self).join_handle(),
            final(self).cancel_event_sender() == old(self).cancel_event_sender(),
            final(self).cancel_requested() == old(self).cancel_requested(),
            final(self).abort_requested() == old(self).abort_requested(),
    {
        let finished = join_handle_is_finished(&self.handle);
        if finished {
            self.finished_reported = Ghost(true);
        }
        finished
    }

    /// Aborts the task associated with the handle.
    pub fn abort(&self) {
        abort_join_handle(&self.handle);
    }

    /// Aborts the task associated with the handle and records that its
    /// abortion was requested.
    pub fn request_abort(&mut self)
        ensures
            final(self).abort_requested(),
            final(self).join_handle() == old(self).join_handle(),
            final(self).cancel_event_sender() == old(self).cancel_event_sender(),
            final(self).cancel_requested() == old(self).cancel_requested(),
            final(self).finished_reported() == old(self).finished_reported(),
    {
        abort_join_handle(&self.handle);
        self.abort_requested = Ghost(true);
    }

    /// Cancels the task associated with the handle: publishes `true` on the
    /// task's cancellation channel, each time it is called. Whether the task
    /// handles the cancellation event or not depends on the task itself. If
    /// it does not, it continues until it finishes or is aborted.
    pub fn cancel(&mut self)
        ensures
            canceled_from(*old(self), *final(self)),
    {
        let published = watch_send(&self.cancel_event_sender, true);
        self.cancel = CancelState { requested: true, published: Ghost(published) };
    }

    /// The runtime's join handle, to be polled for the task's completion.
    /// What the handle then holds is the polled join handle; the rest of the
    /// handle is left as it was.
    pub fn join_handle_mut(&mut self) -> (r: &mut tokio::task::JoinHandle<T>)
        ensures
            *r == old(self).join_handle(),
            final(self).join_handle() == *final(r),
            final(self).cancel_event_sender() == old(self).cancel_event_sender(),
            final(self).cancel_requested() == old(self).cancel_requested(),
            final(self).abort_requested() == old(self).abort_requested(),
            final(self).finished_reported() == old(self).finished_reported(),
    {
        &mut self.handle
    }

    /// Reports the outcome of the task from what its join handle gave back.
    /// A task that ran to completion after cancellation was requested counts
    /// as canceled; a failed join is reported as a panic or an abortion.
    pub fn settle(&self, joined: Result<T, tokio::task::JoinError>) -> (r: Result<T, TaskError>)
        ensures
            settled(self.cancel_requested(), joined, r),
    {
        proof {
            use_type_invariant(&self.cancel);
        }
        match joined {
            Ok(v) => {
                if self.cancel.requested {
                    Err(TaskError::Canceled)
                } else {
                    Ok(v)
                }
            },
            Err(e) => {
                let panicked = join_error_is_panic(&e);
                Err(TaskError::from_join_failure(e, panicked))
            },
        }
    }
}

/// A task that runs to completion is reported as canceled when cancellation
/// was requested through its handle, and with its value otherwise.
pub proof fn completion_reports_cancellation<T>(handle: TaskHandle<T>, value: T, r: Result<T, TaskError>)
    requires
        settled(handle.cancel_requested(), Ok(value), r),
    ensures
        handle.cancel_requested() ==> r matches Err(TaskError::Canceled),
        !handle.cancel_requested() ==> (r == Ok::<T, TaskError>(value)),
{
}

/// Canceling a handle a second time changes nothing: `true` stays published
/// on the task's cancellation channel, and the handle keeps its join handle,
/// its sender and its other records.
pub proof fn cancel_is_idempotent<T>(h0: TaskHandle<T>, h1: TaskHandle<T>, h2: TaskHandle<T>)
    requires
        canceled_from(h0, h1),
        canceled_from(h1, h2),
    ensures
        h2.cancel_requested(),
        h2.join_handle() == h1.join_handle(),
        h2.cancel_event_sender() == h1.cancel_event_sender(),
        h2.abort_requested() == h1.abort_requested(),
        h2.finished_reported() == h1.finished_reported(),
{
}

/// Whatever a handle had published before, after a cancellation request the
/// task's cancellation channel holds `true` as published by that handle, so
/// a task that has run to completion is reported as canceled.
pub proof fn cancel_publishes_true<T>(
    pre: TaskHandle<T>,
    post: TaskHandle<T>,
    value: T,
    r: Result<T, TaskError>,
)
    requires
        canceled_from(pre, post),
        settled(post.cancel_requested(), Ok(value), r),
    ensures
        post.cancel_requested(),
        r matches Err(TaskError::Canceled),
{
}

} // verus!
