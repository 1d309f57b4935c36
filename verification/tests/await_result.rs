use coachman::AwaitResult;
use coachman::{Canceled, Completed};

#[test]
fn canceled_is_canceled_not_completed() {
    let r: AwaitResult<u32> = Canceled;
    assert!(r.is_canceled());
    assert!(!r.is_completed());
    assert_eq!(r.result(), None);
}

#[test]
fn completed_carries_value() {
    let r = Completed(7u32);
    assert!(!r.is_canceled());
    assert!(r.is_completed());
    assert_eq!(r.result(), Some(7));
}

#[test]
fn settle_prefers_cancellation() {
    assert_eq!(AwaitResult::settle(3u8, true), Canceled);
    assert_eq!(AwaitResult::settle(3u8, false), Completed(3));
    assert_eq!(AwaitResult::settle((), false), Completed(()));
}
