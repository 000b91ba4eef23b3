use tx2::clock::{BasicClock, Duration, MinimalSleeper, SignedDuration};

#[test]
fn duration_construction_and_parts() {
    let d = Duration::new(2, 500_000_000);
    assert_eq!(d.seconds(), 2);
    assert_eq!(d.subsec_nanos(), 500_000_000);
    assert_eq!(Duration::from_millis(1500).seconds(), 1);
    assert_eq!(Duration::from_millis(1500).subsec_nanos(), 500_000_000);
    assert_eq!(Duration::from_micros(12).subsec_nanos(), 12_000);
    assert_eq!(Duration::zero().seconds(), 0);
}

#[test]
fn duration_checked_add_carries_and_overflows() {
    let a = Duration::new(1, 600_000_000);
    let b = Duration::new(2, 700_000_000);
    let sum = a.checked_add(&b).expect("fits");
    assert_eq!(sum.seconds(), 4);
    assert_eq!(sum.subsec_nanos(), 300_000_000);
    let max = Duration::new(u64::MAX, 999_999_999);
    assert!(max.checked_add(&Duration::new(0, 1)).is_none());
    assert_eq!(max.checked_add(&Duration::zero()), Some(max));
}

#[test]
fn duration_checked_sub_borrows_and_underflows() {
    let a = Duration::new(3, 200_000_000);
    let b = Duration::new(1, 700_000_000);
    let diff = a.checked_sub(&b).expect("non-negative");
    assert_eq!(diff.seconds(), 1);
    assert_eq!(diff.subsec_nanos(), 500_000_000);
    assert!(b.checked_sub(&a).is_none());
}

#[test]
fn signed_duration_crosses_zero() {
    let owed = SignedDuration::from_duration(Duration::from_millis(5));
    // 5ms - 8ms = -3ms
    let owed = owed.checked_sub(Duration::from_millis(8)).expect("in range");
    assert!(owed.negative);
    assert_eq!(owed.magnitude, Duration::from_millis(3));
    // -3ms + 10ms = 7ms
    let owed = owed.checked_add(Duration::from_millis(10)).expect("in range");
    assert!(!owed.negative);
    assert_eq!(owed.magnitude, Duration::from_millis(7));
    // -x - y accumulates further debt below zero
    let deep = SignedDuration { negative: true, magnitude: Duration::from_millis(2) };
    let deep = deep.checked_sub(Duration::from_millis(2)).expect("in range");
    assert!(deep.negative);
    assert_eq!(deep.magnitude, Duration::from_millis(4));
}

#[test]
fn basic_clock_accumulates_consumed_time() {
    let mut clk = BasicClock::new();
    assert_eq!(clk.read(), Duration::zero());
    clk.advance(&Duration::from_micros(12));
    clk.advance(&Duration::from_micros(30));
    assert_eq!(clk.read(), Duration::from_micros(42));
}

#[test]
fn sleeper_waits_for_enough_debt() {
    let mut s = MinimalSleeper::new(Duration::from_millis(10));
    assert_eq!(s.sleep(&Duration::from_millis(4)), None);
    assert_eq!(s.sleep(&Duration::from_millis(4)), None);
    // 12ms of debt exceeds the 10ms minimum: time to really sleep.
    assert_eq!(s.sleep(&Duration::from_millis(4)), Some(Duration::from_millis(12)));
    // The driver overslept: the debt goes negative.
    assert!(s.note_slept(&Duration::from_millis(15)));
    assert!(s.sleep_owed.negative);
    assert_eq!(s.sleep_owed.magnitude, Duration::from_millis(3));
    assert_eq!(s.total_cumulative_sleep, Duration::from_millis(15));
    // More requests accumulate from the negative debt.
    assert_eq!(s.sleep(&Duration::from_millis(5)), None);
    assert_eq!(s.sleep(&Duration::from_millis(9)), Some(Duration::from_millis(11)));
}
