use coachman::{CompletionEvent, TaskError, TaskHandle, TaskManager, TaskManagerError};
use std::future::Future;
use tokio::sync::{mpsc, watch};

fn runtime() -> tokio::runtime::Runtime {
    tokio::runtime::Builder::new_current_thread().enable_all().build().unwrap()
}

type Spawner = Box<dyn FnOnce(CompletionEvent, mpsc::Sender<CompletionEvent>) -> TaskHandle<()>>;

/// Spawns `future` as a supervised task that reports its completion event
/// on `completions` when it finishes.
fn supervised<F>(future: F) -> Spawner
where
    F: Future<Output = ()> + Send + 'static,
{
    Box::new(move |event, completions| {
        let (sender, _receiver) = watch::channel(false);
        let handle = tokio::spawn(async move {
            future.await;
            let _ = completions.send(event).await;
        });
        TaskHandle::new(handle, sender)
    })
}

/// Spawns a supervised task that runs until its cancellation is requested,
/// then reports its completion event.
fn cancelable() -> Spawner {
    Box::new(move |event, completions| {
        let (sender, receiver) = watch::channel(false);
        let handle = tokio::spawn(async move {
            let mut receiver = receiver;
            while !*receiver.borrow() {
                if receiver.changed().await.is_err() {
                    break;
                }
            }
            let _ = completions.send(event).await;
        });
        TaskHandle::new(handle, sender)
    })
}

fn sleeper() -> Spawner {
    supervised(async {
        tokio::time::sleep(std::time::Duration::from_secs(u64::MAX)).await;
    })
}

/// Waits for every task of the manager in key order, as joining does.
async fn join_all(manager: TaskManager, resume_panic: bool) {
    for (_, mut handle) in manager.into_tasks() {
        let joined = handle.join_handle_mut().await;
        let outcome = handle.settle(joined);
        if let Some(error) = TaskManager::panic_to_resume(outcome, resume_panic) {
            let payload = error.into_panic();
            match payload.downcast_ref::<&str>() {
                Some(message) => panic!("{}", message),
                None => panic!("task panicked"),
            }
        }
    }
}

/// Handles the completion events that are already queued.
async fn process_pending(manager: &mut TaskManager) {
    while let Ok(event) = manager.completion_events().try_recv() {
        if let Some(mut handle) = manager.complete_task(event) {
            let _ = handle.join_handle_mut().await;
        }
    }
}

#[test]
fn test_task_manager_overflow() {
    runtime().block_on(async {
        let mut task_manager = TaskManager::builder().with_max_tasks(1).build();

        let task_key = task_manager.try_spawn(supervised(async {}));
        assert!(task_key.is_some());

        let task_key = task_manager.try_spawn(supervised(async {}));
        assert!(task_key.is_none());
    });
}

#[test]
#[should_panic(expected = "test panic")]
fn test_task_unwinding_enabled() {
    runtime().block_on(async {
        let mut task_manager = TaskManager::builder().build();
        task_manager.try_spawn(supervised(async { panic!("test panic") })).unwrap();
        join_all(task_manager, true).await;
    });
}

#[test]
fn test_task_unwinding_disabled() {
    runtime().block_on(async {
        let mut task_manager = TaskManager::builder().build();
        task_manager.try_spawn(supervised(async { panic!("test panic") })).unwrap();
        join_all(task_manager, false).await;
    });
}

#[test]
fn manager_test_task_abortion() {
    runtime().block_on(async {
        let mut task_manager = TaskManager::builder().build();
        let task_key = task_manager.try_spawn(sleeper()).unwrap();
        task_manager.abort_task(task_key).unwrap();
        join_all(task_manager, true).await;
    });
}

#[test]
fn test_task_manager_abortion() {
    runtime().block_on(async {
        let mut task_manager = TaskManager::builder().build();
        task_manager.try_spawn(sleeper()).unwrap();
        task_manager.try_spawn(sleeper()).unwrap();

        task_manager.abort();
    });
}

#[test]
fn test_task_manager_cancellation() {
    runtime().block_on(async {
        let mut task_manager = TaskManager::builder().build();
        task_manager.try_spawn(sleeper()).unwrap();
        task_manager.try_spawn(sleeper()).unwrap();

        task_manager.cancel();
    });
}

#[test]
fn test_processing_loop() {
    runtime().block_on(async {
        let mut task_manager = TaskManager::builder().build();
        task_manager.try_spawn(supervised(async {})).unwrap();
        task_manager.try_spawn(supervised(async {})).unwrap();
        assert_eq!(task_manager.size(), 2);

        tokio::task::yield_now().await;
        process_pending(&mut task_manager).await;
        assert_eq!(task_manager.size(), 0);

        task_manager.try_spawn(supervised(async {})).unwrap();
        assert_eq!(task_manager.size(), 1);

        tokio::task::yield_now().await;
        process_pending(&mut task_manager).await;
        assert_eq!(task_manager.size(), 0);
    });
}

#[test]
fn test_task_detach() {
    runtime().block_on(async {
        let mut task_manager = TaskManager::builder().build();
        let task_key = task_manager.try_spawn(cancelable()).unwrap();

        let mut task_handle = task_manager.detach(task_key).unwrap();
        assert_eq!(task_manager.size(), 0);

        task_handle.cancel();
        let joined = task_handle.join_handle_mut().await;
        let _ = task_handle.settle(joined);
    });
}

#[test]
fn keys_are_fresh_and_reused_after_removal() {
    runtime().block_on(async {
        let mut task_manager = TaskManager::new(4, 0, 1);
        let k0 = task_manager.try_spawn(sleeper()).unwrap();
        let k1 = task_manager.try_spawn(sleeper()).unwrap();
        assert_eq!((k0, k1), (0, 1));
        assert!(task_manager.detach(k0).is_ok());
        let k2 = task_manager.try_spawn(sleeper()).unwrap();
        assert_eq!(k2, 0);
        assert_eq!(task_manager.size(), 2);
        task_manager.abort();
    });
}

#[test]
fn cancel_task_of_unknown_key_is_not_found() {
    runtime().block_on(async {
        let mut task_manager = TaskManager::builder().build();
        assert!(matches!(task_manager.cancel_task(5), Err(TaskManagerError::TaskNotFound)));
        let key = task_manager.try_spawn(sleeper()).unwrap();
        assert!(task_manager.cancel_task(key).is_ok());
        assert!(task_manager.cancel_task(key).is_ok());
        assert_eq!(task_manager.size(), 1);
        task_manager.abort();
    });
}

#[test]
fn removed_task_is_not_found_again() {
    runtime().block_on(async {
        let mut task_manager = TaskManager::builder().build();
        let key = task_manager.try_spawn(sleeper()).unwrap();
        assert!(task_manager.abort_task(key).is_ok());
        assert!(matches!(task_manager.abort_task(key), Err(TaskManagerError::TaskNotFound)));
        assert!(matches!(task_manager.cancel_task(key), Err(TaskManagerError::TaskNotFound)));
        assert!(matches!(task_manager.detach(key), Err(TaskManagerError::TaskNotFound)));
        assert_eq!(task_manager.size(), 0);
    });
}

#[test]
fn canceled_then_detached_task_reports_canceled() {
    runtime().block_on(async {
        let mut task_manager = TaskManager::builder().build();
        let key = task_manager.try_spawn(supervised(async {})).unwrap();
        task_manager.cancel_task(key).unwrap();
        let mut handle = task_manager.detach(key).unwrap();
        let joined = handle.join_handle_mut().await;
        assert!(matches!(handle.settle(joined), Err(TaskError::Canceled)));
    });
}

#[test]
fn into_tasks_lists_keys_in_order() {
    runtime().block_on(async {
        let mut task_manager = TaskManager::builder().with_max_tasks(3).build();
        for _ in 0..3 {
            task_manager.try_spawn(sleeper()).unwrap();
        }
        assert!(task_manager.try_spawn(sleeper()).is_none());
        task_manager.detach(1).unwrap().abort();
        let tasks = task_manager.into_tasks();
        let keys: Vec<usize> = tasks.iter().map(|(k, _)| *k).collect();
        assert_eq!(keys, vec![0, 2]);
        for (_, handle) in tasks {
            handle.abort();
        }
    });
}

#[test]
fn panic_to_resume_only_on_request() {
    assert!(TaskManager::panic_to_resume(Ok(()), true).is_none());
    assert!(TaskManager::panic_to_resume(Err(TaskError::Canceled), true).is_none());
    assert!(TaskManager::panic_to_resume(Err(TaskError::Aborted), true).is_none());
}

#[test]
fn builder_settings_carry_to_the_manager() {
    runtime().block_on(async {
        let mut builder = TaskManager::builder();
        builder.with_max_tasks(2).with_capacity(8).with_completion_event_buffer_size(1);
        let mut task_manager = builder.build();
        assert!(task_manager.try_spawn(sleeper()).is_some());
        assert!(task_manager.try_spawn(sleeper()).is_some());
        assert!(task_manager.try_spawn(sleeper()).is_none());
        task_manager.abort();
    });
}

#[test]
fn default_builder_allows_many_tasks() {
    runtime().block_on(async {
        let mut task_manager = TaskManager::builder().build();
        for _ in 0..1024 {
            assert!(task_manager.try_spawn(sleeper()).is_some());
        }
        assert!(task_manager.try_spawn(sleeper()).is_none());
        assert_eq!(task_manager.size(), 1024);
        task_manager.abort();
    });
}

#[test]
fn canceled_task_observes_cancellation_and_is_processed() {
    runtime().block_on(async {
        let mut task_manager = TaskManager::builder().build();
        let key = task_manager.try_spawn(cancelable()).unwrap();
        tokio::task::yield_now().await;
        assert_eq!(task_manager.size(), 1);
        assert!(task_manager.cancel_task(key).is_ok());
        let event = task_manager.completion_events().recv().await.unwrap();
        assert_eq!(event.key, key);
        let mut handle = task_manager.complete_task(event).unwrap();
        assert_eq!(task_manager.size(), 0);
        let joined = handle.join_handle_mut().await;
        assert!(matches!(handle.settle(joined), Err(TaskError::Canceled)));
    });
}

#[test]
fn finished_task_cannot_be_canceled() {
    runtime().block_on(async {
        let mut task_manager = TaskManager::builder().build();
        let key = task_manager.try_spawn(supervised(async {})).unwrap();
        let event = task_manager.completion_events().recv().await.unwrap();
        for _ in 0..100 {
            tokio::task::yield_now().await;
        }
        assert!(matches!(task_manager.cancel_task(key), Err(TaskManagerError::TaskNotFound)));
        assert_eq!(task_manager.size(), 1);
        assert!(task_manager.complete_task(event).is_some());
        assert_eq!(task_manager.size(), 0);
    });
}

#[test]
fn detached_task_completion_leaves_reused_key_alone() {
    runtime().block_on(async {
        let mut task_manager = TaskManager::builder().build();
        let (release, wait) = tokio::sync::oneshot::channel::<()>();
        let key = task_manager
            .try_spawn(supervised(async move {
                let _ = wait.await;
            }))
            .unwrap();
        let mut detached = task_manager.detach(key).unwrap();
        let reused = task_manager.try_spawn(sleeper()).unwrap();
        assert_eq!(reused, key);

        release.send(()).unwrap();
        let _ = detached.join_handle_mut().await;
        process_pending(&mut task_manager).await;
        assert_eq!(task_manager.size(), 1);
        assert!(task_manager.detach(key).is_ok());
    });
}

#[test]
fn completion_event_names_key_and_serial() {
    runtime().block_on(async {
        let mut task_manager = TaskManager::new(2, 0, 1);
        let k0 = task_manager.try_spawn(supervised(async {})).unwrap();
        let first = task_manager.completion_events().recv().await.unwrap();
        assert_eq!(first, CompletionEvent { key: k0, serial: 0 });
        let stale = CompletionEvent { key: k0, serial: 7 };
        assert!(task_manager.complete_task(stale).is_none());
        assert_eq!(task_manager.size(), 1);
        assert!(task_manager.complete_task(first).is_some());
        let k1 = task_manager.try_spawn(supervised(async {})).unwrap();
        let second = task_manager.completion_events().recv().await.unwrap();
        assert_eq!(second, CompletionEvent { key: k1, serial: 1 });
    });
}
