use npb_ep::timing::{elapsed, PhaseTimes, MAX_MICROS};
use std::time::{Duration, Instant};

#[test]
fn elapsed_counts_microseconds() {
    let start = Instant::now();
    let first = elapsed(&start);
    assert!(first < 10_000_000);
    let earlier = start.checked_sub(Duration::from_millis(1500)).unwrap();
    let since = elapsed(&earlier);
    assert!(since >= 1_500_000);
    assert!(since < 1_500_000 + 10_000_000);
    assert!(since <= MAX_MICROS);
}

#[test]
fn the_longest_duration_is_the_bound() {
    assert_eq!(Duration::MAX.as_micros(), MAX_MICROS);
}

#[test]
fn phase_times_add_and_average() {
    let mut total = PhaseTimes::zero();
    assert_eq!(total, PhaseTimes { pairs: 0, uniforms: 0 });
    total.accumulate(&PhaseTimes { pairs: 10, uniforms: 7 });
    total.accumulate(&PhaseTimes { pairs: 5, uniforms: 4 });
    assert_eq!(total, PhaseTimes { pairs: 15, uniforms: 11 });
    assert_eq!(total.per_worker(2), PhaseTimes { pairs: 7, uniforms: 5 });
    assert_eq!(total.per_worker(1), total);
    assert_eq!(total.per_worker(16), PhaseTimes { pairs: 0, uniforms: 0 });
}
