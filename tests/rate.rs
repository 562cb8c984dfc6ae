use serial_perf::{ByteRate, Duration};

#[test]
fn creation() {
    let rate = ByteRate::new(146, Duration::from_secs(2));
    assert_eq!(rate.bytes(), 146);
    assert_eq!(rate.interval().as_secs(), 2);
}

#[test]
fn bytes_per_second_sec_accuracy_whole() {
    let rate = ByteRate::new(146, Duration::from_secs(2));
    let rate_per_sec = rate.bytes_per_second_sec_accuracy();
    assert!(rate_per_sec.is_some());
    assert_eq!(rate_per_sec.unwrap(), 73);
}

#[test]
fn bytes_per_second_sec_accuracy_reminder() {
    let rate = ByteRate::new(73, Duration::from_secs(2));
    let rate_per_sec = rate.bytes_per_second_sec_accuracy();
    assert!(rate_per_sec.is_some());
    assert_eq!(rate_per_sec.unwrap(), 36);
}

#[test]
fn bytes_per_second_auto() {
    let rate = ByteRate::new(146, Duration::from_millis(500));
    let rate_per_sec = rate.bytes_per_second();
    assert!(rate_per_sec.is_some());
    assert_eq!(rate_per_sec.unwrap(), 292);
}

#[test]
fn bytes_per_second_zero() {
    let rate = ByteRate::new(146, Duration::zero());
    let rate_per_sec = rate.bytes_per_second();
    assert!(rate_per_sec.is_none());
}

#[test]
fn bytes_per_second_sec_accuracy_below_1_sec() {
    let rate = ByteRate::new(146, Duration::from_millis(250));
    let rate_per_sec = rate.bytes_per_second_sec_accuracy();
    assert!(rate_per_sec.is_none());
}

#[test]
fn bytes_per_second_ms_accuracy_whole() {
    let rate = ByteRate::new(146, Duration::from_millis(250));
    let rate_per_sec = rate.bytes_per_second_ms_accuracy();
    assert!(rate_per_sec.is_some());
    assert_eq!(rate_per_sec.unwrap(), 146 * 4);
}

#[test]
fn bytes_per_second_us_accuracy_whole() {
    let rate = ByteRate::new(146, Duration::from_micros(250));
    let rate_per_sec = rate.bytes_per_second_us_accuracy();
    assert!(rate_per_sec.is_some());
    assert_eq!(rate_per_sec.unwrap(), 146 * 4000);
}

#[test]
fn bytes_per_second_ns_accuracy_whole() {
    let rate = ByteRate::new(146, Duration::from_nanos(250));
    let rate_per_sec = rate.bytes_per_second_ns_accuracy();
    assert!(rate_per_sec.is_some());
    assert_eq!(rate_per_sec.unwrap(), 146 * 4_000_000);
}

#[test]
fn bytes_per_second_ns_overflow() {
    let rate = ByteRate::new(usize::MAX, Duration::from_nanos(250));
    let rate_per_sec = rate.bytes_per_second_ns_accuracy();
    assert!(rate_per_sec.is_none());
}

#[test]
fn bytes_per_second_auto_overflow() {
    let rate = ByteRate::new(usize::MAX / 2, Duration::from_secs(2));
    let rate_per_sec = rate.bytes_per_second();
    assert!(rate_per_sec.is_some());
    assert_eq!(rate_per_sec.unwrap(), usize::MAX / 4);
}

#[test]
fn bytes_per_second_falls_back_to_coarser_units() {
    // 10^12 bytes over 3 s: nanoseconds overflow (10^21), microseconds fit.
    let rate = ByteRate::new(1_000_000_000_000, Duration::from_secs(3));
    assert_eq!(rate.bytes_per_second_ns_accuracy(), None);
    assert_eq!(rate.bytes_per_second_us_accuracy(), Some(333_333_333_333));
    assert_eq!(rate.bytes_per_second(), Some(333_333_333_333));
}

#[test]
fn bytes_per_second_truncates_to_whole_units() {
    let rate = ByteRate::new(10, Duration::from_nanos(1_500_000_000));
    assert_eq!(rate.bytes_per_second_sec_accuracy(), Some(10));
    assert_eq!(rate.bytes_per_second_ms_accuracy(), Some(6));
    assert_eq!(rate.bytes_per_second(), Some(6));
}

#[test]
fn setters_and_default() {
    let mut rate = ByteRate::default();
    assert_eq!(rate.bytes(), 0);
    assert_eq!(rate.interval().as_secs(), 1);
    rate.set_bytes(41);
    rate.incr_bytes();
    rate.set_interval(Duration::from_millis(1500));
    assert_eq!(rate.bytes(), 42);
    assert_eq!(rate.interval().as_millis(), 1500);
    assert_eq!(rate.interval().subsec_nanos(), 500_000_000);
}

#[test]
fn duration_and_instant_arithmetic() {
    let d = Duration::from_secs(u64::MAX);
    assert_eq!(d.checked_add(Duration::from_secs(1)), None);
    assert_eq!(
        Duration::from_millis(1).checked_add(Duration::from_micros(1)).unwrap().as_nanos(),
        1_001_000
    );
    let t = serial_perf::Instant::from_nanos(u64::MAX - 5);
    assert_eq!(t.checked_add(Duration::from_nanos(6)), None);
    assert_eq!(t.checked_add(Duration::from_nanos(5)).unwrap().as_nanos(), u64::MAX);
    let early = serial_perf::Instant::from_nanos(100);
    assert_eq!(early.duration_since(t).as_nanos(), 0);
    assert_eq!(t.duration_since(early).as_nanos(), (u64::MAX - 105) as u128);
}
