# coachman

Bookkeeping for cancelable asynchronous tasks on tokio, verified with Verus.

- `src/` is the verified library. `await_result` holds the outcome of a
  cancelable await; `task` the task handle (cancellation flag, abort, and how
  a finished task is reported); `storage` the slab of supervised tasks (handle and
  spawn serial), declared to the verifier through named contents and
  wrappers; `manager` the task manager with its builder, its operations, the
  completion events that name a task by key and serial, and the laws that
  relate the operations.
- `app/` is the runtime side that Verus does not see: the task-local
  cancellation event, the `try_await!` macro, spawning on the runtime, the
  awaitable task handle, and the manager's processing and joining loops.
- `tests/` exercises the library on a tokio runtime.
