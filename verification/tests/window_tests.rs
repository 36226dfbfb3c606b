use edge_beacon::window::{WindowAggregator, WINDOW_TICKS};

#[test]
fn fresh_window_sums_to_zero() {
    let w = WindowAggregator::new(WINDOW_TICKS);
    assert_eq!(w.len(), 60);
    assert_eq!(w.rolling_sum(), 0);
}

#[test]
fn rolling_sum_counts_pushed_ticks() {
    // Zero-initialized slots are semantically "no events before start":
    // the sum is correct from the very first tick.
    let mut w = WindowAggregator::new(WINDOW_TICKS);
    w.push_tick(3);
    assert_eq!(w.rolling_sum(), 3);
    w.push_tick(0);
    assert_eq!(w.rolling_sum(), 3);
    w.push_tick(5);
    assert_eq!(w.rolling_sum(), 8);
}

#[test]
fn ring_overwrites_oldest() {
    // Capacity 3: the fourth push lands on the first slot, so the first
    // count no longer contributes to the sum.
    let mut w = WindowAggregator::new(3);
    w.push_tick(1);
    w.push_tick(2);
    w.push_tick(3);
    assert_eq!(w.rolling_sum(), 6);
    w.push_tick(10);
    assert_eq!(w.rolling_sum(), 15);
}

#[test]
fn full_window_keeps_last_n() {
    let mut w = WindowAggregator::new(WINDOW_TICKS);
    for _ in 0..WINDOW_TICKS {
        w.push_tick(1);
    }
    assert_eq!(w.rolling_sum(), 60);
    for _ in 0..WINDOW_TICKS {
        w.push_tick(2);
    }
    assert_eq!(w.rolling_sum(), 120);
}

#[test]
fn large_counts_do_not_overflow() {
    let mut w = WindowAggregator::new(3);
    w.push_tick(u32::MAX);
    w.push_tick(u32::MAX);
    w.push_tick(u32::MAX);
    assert_eq!(w.rolling_sum(), 3 * u64::from(u32::MAX));
}
