use coachman::{TaskError, TaskHandle};
use std::future::Future;
use tokio::sync::watch;

fn runtime() -> tokio::runtime::Runtime {
    tokio::runtime::Builder::new_current_thread().enable_all().build().unwrap()
}

fn spawn_handle<F>(future: F) -> TaskHandle<F::Output>
where
    F: Future + Send + 'static,
    F::Output: Send + 'static,
{
    let (sender, _receiver) = watch::channel(false);
    TaskHandle::new(tokio::spawn(future), sender)
}

async fn finish<T>(mut handle: TaskHandle<T>) -> Result<T, TaskError> {
    let joined = handle.join_handle_mut().await;
    handle.settle(joined)
}

#[test]
fn completed_task_gives_its_value() {
    runtime().block_on(async {
        let handle = spawn_handle(async { 42u32 });
        match finish(handle).await {
            Ok(v) => assert_eq!(v, 42),
            _ => panic!("unexpected task result"),
        }
    });
}

#[test]
fn canceled_task_that_completes_reports_canceled() {
    runtime().block_on(async {
        let (sender, receiver) = watch::channel(false);
        let mut handle = TaskHandle::new(
            tokio::spawn(async move {
                let mut receiver = receiver;
                let _ = receiver.changed().await;
                let seen: bool = *receiver.borrow();
                seen
            }),
            sender,
        );
        handle.cancel();
        match finish(handle).await {
            Err(TaskError::Canceled) => {}
            _ => panic!("unexpected task result"),
        }
    });
}

#[test]
fn cancel_publishes_the_cancel_event() {
    runtime().block_on(async {
        let (sender, receiver) = watch::channel(false);
        let mut handle = TaskHandle::new(
            tokio::spawn(async move {
                let mut receiver = receiver;
                let _ = receiver.changed().await;
                let seen: bool = *receiver.borrow();
                seen
            }),
            sender,
        );
        handle.cancel();
        let joined = handle.join_handle_mut().await;
        assert!(joined.unwrap());
    });
}

#[test]
fn task_test_task_abortion() {
    runtime().block_on(async {
        let handle = spawn_handle(async {
            tokio::time::sleep(std::time::Duration::from_secs(u64::MAX)).await;
        });
        handle.abort();
        match finish(handle).await {
            Err(TaskError::Aborted) => {}
            _ => assert!(false, "unexpected task result"),
        }
    });
}

#[test]
fn test_task_panic() {
    runtime().block_on(async {
        let handle = spawn_handle(async move {
            panic!("test message");
        });
        match finish(handle).await {
            Err(TaskError::Panicked(error)) => {
                let panic_arg = error.into_panic();
                assert_eq!("test message", *panic_arg.downcast::<&str>().unwrap());
            }
            _ => assert!(false, "unexpected task result"),
        }
    });
}

#[test]
fn join_failure_classification() {
    runtime().block_on(async {
        let aborted = spawn_handle(async {
            tokio::time::sleep(std::time::Duration::from_secs(u64::MAX)).await;
        });
        aborted.abort();
        let mut aborted = aborted;
        let error = aborted.join_handle_mut().await.unwrap_err();
        assert!(matches!(TaskError::from_join_failure(error, false), TaskError::Aborted));

        let mut panicked = spawn_handle(async { panic!("boom") });
        let error = panicked.join_handle_mut().await.unwrap_err();
        match TaskError::from_join_failure(error, true) {
            TaskError::Panicked(e) => assert!(e.is_panic()),
            _ => panic!("unexpected classification"),
        }
    });
}

#[test]
fn canceling_twice_is_canceling_once() {
    runtime().block_on(async {
        let (sender, receiver) = watch::channel(false);
        let mut handle = TaskHandle::new(
            tokio::spawn(async move {
                let mut receiver = receiver;
                let _ = receiver.changed().await;
            }),
            sender,
        );
        handle.cancel();
        handle.cancel();
        match finish(handle).await {
            Err(TaskError::Canceled) => {}
            _ => panic!("unexpected task result"),
        }
    });
}
