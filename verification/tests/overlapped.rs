use dynstaller::overlapped_future::{
    is_completed, OverlappedFuture, OverlappedPoll, OverlappedStatus, IO_INCOMPLETE,
};

#[test]
fn an_operation_under_way_is_pending() {
    let future = OverlappedFuture::new();
    assert!(!is_completed(0x103));
    assert!(future.poll(0x103) == OverlappedPoll::Pending);
    assert_eq!(future.bytes_transferred(), None);
}

#[test]
fn an_operation_that_ended_has_an_outcome() {
    let mut future = OverlappedFuture::new();
    assert!(is_completed(0) && is_completed(usize::MAX));
    assert!(future.poll(0) == OverlappedPoll::AskForOutcome);
    assert!(future.accept(Ok(()), 12) == OverlappedPoll::Ready(Ok(12)));
    assert!(future.poll(0x103) == OverlappedPoll::Ready(Ok(12)));
    assert_eq!(future.bytes_transferred(), Some(12));
}

#[test]
fn an_outcome_that_is_incomplete_is_none() {
    let mut future = OverlappedFuture::new();
    assert_eq!(IO_INCOMPLETE as u32, 0x800703e4);
    assert!(future.accept(Err(IO_INCOMPLETE), 3) == OverlappedPoll::Pending);
    assert!(future.status == OverlappedStatus::Pending);
}

#[test]
fn a_failure_is_kept_with_its_bytes() {
    let mut future = OverlappedFuture::new();
    assert!(future.accept(Err(-7), 3) == OverlappedPoll::Ready(Err(-7)));
    assert_eq!(future.bytes_transferred(), Some(3));
    assert!(future.accept(Ok(()), 9) == OverlappedPoll::Ready(Err(-7)));
}

#[test]
fn a_reset_operation_is_pending_again() {
    let mut future = OverlappedFuture::new();
    future.accept(Ok(()), 12);
    future.reset();
    assert!(future.poll(0x103) == OverlappedPoll::Pending);
    assert_eq!(future.bytes_transferred(), None);
}
