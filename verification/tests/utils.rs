use datafusion_loki::utils::{
    current_timestamp_ns, thirty_days_before, thirty_days_before_now_timestamp_ns, timestamp_ns,
    THIRTY_DAYS_NS,
};

#[test]
fn thirty_days_in_nanoseconds() {
    assert_eq!(THIRTY_DAYS_NS, 30 * 24 * 60 * 60 * 1000 * 1000 * 1000);
    assert_eq!(thirty_days_before(THIRTY_DAYS_NS), 0);
    assert_eq!(thirty_days_before(0), -2_592_000_000_000_000);
    assert_eq!(thirty_days_before(i64::MAX), i64::MAX - THIRTY_DAYS_NS);
    assert_eq!(thirty_days_before(i64::MIN + THIRTY_DAYS_NS), i64::MIN);
}

#[test]
fn a_reading_of_the_clock_becomes_a_timestamp() {
    assert_eq!(timestamp_ns(Some(0)), 0);
    assert_eq!(timestamp_ns(Some(1_762_905_600_000_000_000)), 1_762_905_600_000_000_000);
    assert_eq!(timestamp_ns(Some(i64::MAX as u128)), i64::MAX);
    assert_eq!(timestamp_ns(Some(i64::MAX as u128 + 1)), i64::MAX);
    assert_eq!(timestamp_ns(Some(u128::MAX)), i64::MAX);
    assert_eq!(timestamp_ns(None), 0);
}

#[test]
fn the_clock_is_read() {
    let before = std::time::SystemTime::now()
        .duration_since(std::time::UNIX_EPOCH)
        .unwrap()
        .as_nanos() as i64;
    let now = current_timestamp_ns();
    let earlier = thirty_days_before_now_timestamp_ns();
    let after = std::time::SystemTime::now()
        .duration_since(std::time::UNIX_EPOCH)
        .unwrap()
        .as_nanos() as i64;
    assert!(before <= now && now <= after);
    assert!(before - THIRTY_DAYS_NS <= earlier && earlier <= after - THIRTY_DAYS_NS);
}
