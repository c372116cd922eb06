use rdp::addins::smartcard::device::OutstandingIrpTracker;

#[test]
fn outstanding_tracker_register_and_complete() {
    let mut tracker = OutstandingIrpTracker::new();

    let token1 = tracker.register(1);
    let token2 = tracker.register(2);

    assert!(!tracker.is_cancelled(&token1));
    assert!(!tracker.is_cancelled(&token2));

    tracker.complete(1);
    tracker.complete(2);
}

#[test]
fn outstanding_tracker_cancel_all() {
    let mut tracker = OutstandingIrpTracker::new();

    let token1 = tracker.register(10);
    let token2 = tracker.register(20);
    let token3 = tracker.register(30);

    tracker.cancel_all();

    assert!(tracker.is_cancelled(&token1));
    assert!(tracker.is_cancelled(&token2));
    assert!(tracker.is_cancelled(&token3));
}

#[test]
fn outstanding_tracker_complete_removes_entry() {
    let mut tracker = OutstandingIrpTracker::new();

    let _token = tracker.register(42);
    tracker.complete(42);

    assert!(!tracker.is_outstanding(42));
}

#[test]
fn outstanding_tracker_cancel_empty_is_noop() {
    let mut tracker = OutstandingIrpTracker::new();
    tracker.cancel_all();
}

#[test]
fn completed_irp_is_not_cancelled_later() {
    let mut tracker = OutstandingIrpTracker::new();
    let done = tracker.register(1);
    let live = tracker.register(2);
    tracker.complete(1);
    assert!(!tracker.is_outstanding(1));
    assert!(tracker.is_outstanding(2));
    tracker.cancel_all();
    assert!(!tracker.is_cancelled(&done));
    assert!(tracker.is_cancelled(&live));
    tracker.cancel_all();
    assert!(tracker.is_cancelled(&live));
    assert!(!tracker.is_cancelled(&done));
}

#[test]
fn reregistered_id_tracks_latest_token() {
    let mut tracker = OutstandingIrpTracker::new();
    let first = tracker.register(5);
    let second = tracker.register(5);
    tracker.cancel_all();
    assert!(!tracker.is_cancelled(&first));
    assert!(tracker.is_cancelled(&second));
    let after = tracker.register(5);
    assert!(!tracker.is_cancelled(&after));
    assert!(tracker.is_outstanding(5));
}

#[test]
fn cancellation_survives_completion() {
    let mut tracker = OutstandingIrpTracker::new();
    let token = tracker.register(9);
    tracker.cancel_all();
    tracker.complete(9);
    assert!(tracker.is_cancelled(&token));
    assert!(!tracker.is_outstanding(9));
}
