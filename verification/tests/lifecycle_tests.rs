use pandagen::lifecycle::{CancellationReason, Deadline, Timeout};
use pandagen::time::{Duration, Instant};

#[test]
fn test_cancellation_reason_display() {
    assert_eq!(CancellationReason::UserCancel.to_string(), "user cancelled");
    assert_eq!(CancellationReason::Timeout.to_string(), "timeout");
    assert_eq!(
        CancellationReason::SupervisorCancel.to_string(),
        "supervisor cancelled"
    );
    assert_eq!(
        CancellationReason::DependencyFailed.to_string(),
        "dependency failed"
    );
    assert_eq!(
        CancellationReason::Custom("test".to_string()).to_string(),
        "test"
    );
}

#[test]
fn test_deadline_basic() {
    let now = Instant::from_nanos(1000);
    let future = Instant::from_nanos(2000);
    let deadline = Deadline::at(future);

    assert!(!deadline.has_passed(now));
    assert_eq!(deadline.instant(), future);

    let later = Instant::from_nanos(2000);
    assert!(deadline.has_passed(later));

    let much_later = Instant::from_nanos(3000);
    assert!(deadline.has_passed(much_later));
}

#[test]
fn test_deadline_time_remaining() {
    let now = Instant::from_nanos(1000);
    let future = Instant::from_nanos(2000);
    let deadline = Deadline::at(future);

    let remaining = deadline.time_remaining(now);
    assert_eq!(remaining, Some(Duration::from_nanos(1000)));

    let at_deadline = Instant::from_nanos(2000);
    let remaining = deadline.time_remaining(at_deadline);
    assert_eq!(remaining, None);

    let past_deadline = Instant::from_nanos(3000);
    let remaining = deadline.time_remaining(past_deadline);
    assert_eq!(remaining, None);
}

#[test]
fn test_timeout_basic() {
    let timeout = Timeout::from_millis(100);
    assert_eq!(timeout.duration(), Duration::from_millis(100));

    let timeout = Timeout::from_secs(5);
    assert_eq!(timeout.duration(), Duration::from_secs(5));

    let timeout = Timeout::after(Duration::from_millis(500));
    assert_eq!(timeout.duration(), Duration::from_millis(500));
}

#[test]
fn test_timeout_to_deadline() {
    let now = Instant::from_nanos(1000);
    let timeout = Timeout::from_millis(100);
    let deadline = timeout.to_deadline(now);

    let expected = Instant::from_nanos(1000 + 100_000_000); // 100ms in nanos
    assert_eq!(deadline.instant(), expected);
    assert!(!deadline.has_passed(now));
    assert!(deadline.has_passed(expected));
}

#[test]
fn test_cancellation_reasons() {
    assert_eq!(
        CancellationReason::UserCancel,
        CancellationReason::UserCancel
    );
    assert_ne!(CancellationReason::UserCancel, CancellationReason::Timeout);
    assert_eq!(
        CancellationReason::Custom("a".to_string()),
        CancellationReason::Custom("a".to_string())
    );
    assert_ne!(
        CancellationReason::Custom("a".to_string()),
        CancellationReason::Custom("b".to_string())
    );
}
