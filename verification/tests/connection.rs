use security_camera_viewer::connection::{
    drain_step, DrainRead, DrainStep, ErrorTracker, Verdict, DEFAULT_MAX_ERRORS,
};
use security_camera_viewer::reader::{ReadError, TransportFault};

#[test]
fn tracker_gives_up_after_more_errors_than_allowed() {
    assert_eq!(DEFAULT_MAX_ERRORS, 10);
    let mut tracker = ErrorTracker::new(DEFAULT_MAX_ERRORS);
    for n in 1..=10u64 {
        assert_eq!(tracker.record_error(ReadError::RecoveryExhausted), Verdict::Continue);
        assert_eq!(tracker.consecutive_errors(), n);
    }
    assert_eq!(tracker.record_error(ReadError::Io), Verdict::Teardown);
    assert_eq!(tracker.consecutive_errors(), 11);
    // The count does not run on.
    assert_eq!(tracker.record_error(ReadError::Io), Verdict::Teardown);
    assert_eq!(tracker.consecutive_errors(), 11);
}

#[test]
fn tracker_ignores_timeouts_and_starts_over_on_success() {
    let mut tracker = ErrorTracker::new(2);
    assert_eq!(tracker.record_error(ReadError::ConnectionClosed), Verdict::Continue);
    assert_eq!(tracker.record_error(ReadError::Timeout), Verdict::Continue);
    assert_eq!(tracker.consecutive_errors(), 1);
    assert_eq!(tracker.record_error(ReadError::MarkerNotFound), Verdict::Continue);
    tracker.record_success();
    assert_eq!(tracker.consecutive_errors(), 0);
    assert_eq!(tracker.record_error(ReadError::Io), Verdict::Continue);
    assert_eq!(tracker.record_error(ReadError::Io), Verdict::Continue);
    assert_eq!(tracker.record_error(ReadError::Timeout), Verdict::Continue);
    assert_eq!(tracker.record_error(ReadError::Io), Verdict::Teardown);
}

#[test]
fn tracker_with_no_allowance() {
    let mut tracker = ErrorTracker::new(0);
    assert_eq!(tracker.record_error(ReadError::Timeout), Verdict::Continue);
    assert_eq!(tracker.record_error(ReadError::Io), Verdict::Teardown);
    let mut wide = ErrorTracker::new(u32::MAX);
    assert_eq!(wide.record_error(ReadError::Io), Verdict::Continue);
}

#[test]
fn draining_ends_on_silence() {
    assert_eq!(drain_step(DrainRead::Bytes(0)), DrainStep::Done);
    assert_eq!(drain_step(DrainRead::Bytes(1)), DrainStep::Again);
    assert_eq!(drain_step(DrainRead::Bytes(1024)), DrainStep::Again);
    assert_eq!(drain_step(DrainRead::Fault(TransportFault::TimedOut)), DrainStep::Done);
    assert_eq!(drain_step(DrainRead::Fault(TransportFault::Closed)), DrainStep::Failed);
    assert_eq!(drain_step(DrainRead::Fault(TransportFault::Other)), DrainStep::Failed);
}
