use std::time::Duration;
use tandem::retry::retry_delay;

#[test]
fn starts_small_and_doubles() {
    assert_eq!(retry_delay(0), Duration::from_millis(100));
    assert_eq!(retry_delay(1), Duration::from_millis(200));
}

#[test]
fn delay_doubles_each_attempt() {
    assert_eq!(retry_delay(5), Duration::from_millis(3200));
    assert_eq!(retry_delay(57), Duration::from_millis(100 * (1u64 << 57)));
}
