use edge_beacon::edge_counter::EdgeCounter;

#[test]
fn fresh_counter_drains_zero() {
    let mut c = EdgeCounter::new();
    assert_eq!(c.drain(), 0);
}

#[test]
fn drain_returns_recorded_edges() {
    let mut c = EdgeCounter::new();
    c.record_edge();
    c.record_edge();
    c.record_edge();
    assert_eq!(c.drain(), 3);
}

#[test]
fn drain_resets() {
    let mut c = EdgeCounter::new();
    c.record_edge();
    assert_eq!(c.drain(), 1);
    assert_eq!(c.drain(), 0);
}

#[test]
fn no_lost_increments_across_drains() {
    // An interleaving of 7 edges and 3 drains: every edge is counted by
    // exactly one drain, so the drained values sum to 7.
    let mut c = EdgeCounter::new();
    let mut drained_total: u64 = 0;
    c.record_edge();
    c.record_edge();
    drained_total += u64::from(c.drain());
    c.record_edge();
    c.record_edge();
    c.record_edge();
    c.record_edge();
    drained_total += u64::from(c.drain());
    c.record_edge();
    drained_total += u64::from(c.drain());
    assert_eq!(drained_total, 7);
}
