use pandagen::time::{Duration, Instant};

#[test]
fn test_duration_creation() {
    let d1 = Duration::from_secs(1);
    let d2 = Duration::from_millis(1000);
    let d3 = Duration::from_micros(1_000_000);
    let d4 = Duration::from_nanos(1_000_000_000);

    assert_eq!(d1, d2);
    assert_eq!(d2, d3);
    assert_eq!(d3, d4);
}

#[test]
fn test_duration_conversion() {
    let d = Duration::from_secs(1);
    assert_eq!(d.as_secs(), 1);
    assert_eq!(d.as_millis(), 1000);
    assert_eq!(d.as_micros(), 1_000_000);
    assert_eq!(d.as_nanos(), 1_000_000_000);
}

#[test]
fn test_duration_arithmetic() {
    let d1 = Duration::from_millis(500);
    let d2 = Duration::from_millis(300);

    assert_eq!(d1 + d2, Duration::from_millis(800));
    assert_eq!(d1 - d2, Duration::from_millis(200));
}

#[test]
fn test_instant_creation() {
    let i1 = Instant::from_nanos(1000);
    let i2 = Instant::from_nanos(2000);
    assert!(i2 > i1);
}

#[test]
fn test_instant_duration_since() {
    let i1 = Instant::from_nanos(1000);
    let i2 = Instant::from_nanos(2000);
    assert_eq!(i2.duration_since(i1), Duration::from_nanos(1000));
}

#[test]
fn test_instant_arithmetic() {
    let i = Instant::from_nanos(1000);
    let d = Duration::from_nanos(500);

    assert_eq!(i + d, Instant::from_nanos(1500));
    assert_eq!(i - d, Instant::from_nanos(500));
}
