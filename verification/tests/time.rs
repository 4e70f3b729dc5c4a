use sonorant::time::{Duration, Instant};

#[test]
fn durations_count_nanoseconds() {
    assert_eq!(Duration::from_secs(2).as_nanos(), 2_000_000_000);
    assert_eq!(Duration::from_millis(1500).as_secs(), 1);
    assert_eq!(Duration::from_millis(1500).subsec_nanos(), 500_000_000);
    assert_eq!(Duration::new(1, 2).as_nanos(), 1_000_000_002);
    assert!(Duration::zero().is_zero());
    assert!(Duration::from_secs(2).longer_than(&Duration::from_millis(1999)));
    assert_eq!(Duration::from_secs(1).plus(Duration::from_nanos(5)).as_nanos(), 1_000_000_005);
}

#[test]
fn sums_past_the_longest_span_are_refused() {
    let most = Duration::new(u64::MAX, 999_999_999);
    assert_eq!(most.checked_add(Duration::from_nanos(1)), None);
    assert_eq!(most.checked_add(Duration::zero()), Some(most));
}

#[test]
fn moments_measure_from_each_other() {
    let a = Instant::from_nanos(10);
    let b = a.after(Duration::from_nanos(5));
    assert_eq!(b.saturating_duration_since(a), Duration::from_nanos(5));
    assert_eq!(a.saturating_duration_since(b), Duration::zero());
    assert_eq!(Instant::at(Duration::from_secs(1)).since_origin(), Duration::from_secs(1));
}
