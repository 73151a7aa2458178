use miller::clock::{nanos_of, secs_of, NANOS_PER_SECOND};

#[test]
fn clock_before_the_epoch_counts_as_zero() {
    assert_eq!(nanos_of(None), 0);
    assert_eq!(nanos_of(Some(0)), 0);
    assert_eq!(nanos_of(Some(1_700_000_000_123_456_789)), 1_700_000_000_123_456_789);
}

#[test]
fn whole_seconds_are_counted() {
    assert_eq!(NANOS_PER_SECOND, 1_000_000_000);
    assert_eq!(secs_of(0), 0);
    assert_eq!(secs_of(999_999_999), 0);
    assert_eq!(secs_of(1_000_000_000), 1);
    assert_eq!(secs_of(1_700_000_000_123_456_789), 1_700_000_000);
    assert_eq!(secs_of((u64::MAX as u128 + 1) * NANOS_PER_SECOND - 1), u64::MAX);
}
