use edge_beacon::edge_counter::EdgeCounter;
use edge_beacon::peer::PeerAddress;
use edge_beacon::scheduler::{
    BroadcastScheduler, Frame, FrameDisposition, PEER_CAPACITY, TICK_INTERVAL_MILLIS,
};

#[test]
fn build_time_constants() {
    let s = BroadcastScheduler::new(500);
    assert_eq!(s.next_boundary(), 500 + TICK_INTERVAL_MILLIS);
    assert_eq!(s.peer_table().len(), 0);
    assert_eq!(PEER_CAPACITY, 8);
}

#[test]
fn no_broadcast_before_boundary() {
    let mut c = EdgeCounter::new();
    let mut s = BroadcastScheduler::with_config(0, 10, 60, 8);
    assert!(s.on_tick(0, &mut c).is_none());
    assert!(s.on_tick(9, &mut c).is_none());
}

#[test]
fn end_to_end_three_ticks() {
    // 3 edges before tick 1, none before tick 2, 5 before tick 3:
    // rolling sums 3, 3, 8 go out as decimal text, to the broadcast address.
    let mut c = EdgeCounter::new();
    let mut s = BroadcastScheduler::with_config(0, 10, 60, 8);
    c.record_edge();
    c.record_edge();
    c.record_edge();
    let a1 = s.on_tick(10, &mut c).expect("tick 1 is due");
    assert!(a1.destination.is_broadcast());
    assert_eq!(a1.payload, b"3".to_vec());
    s.send_complete();
    let a2 = s.on_tick(20, &mut c).expect("tick 2 is due");
    assert_eq!(a2.payload, b"3".to_vec());
    s.send_complete();
    c.record_edge();
    c.record_edge();
    c.record_edge();
    c.record_edge();
    c.record_edge();
    let a3 = s.on_tick(30, &mut c).expect("tick 3 is due");
    assert_eq!(a3.payload, b"8".to_vec());
}

#[test]
fn no_tick_while_transmitting() {
    let mut c = EdgeCounter::new();
    let mut s = BroadcastScheduler::with_config(0, 10, 60, 8);
    assert!(s.on_tick(10, &mut c).is_some());
    // The send is still outstanding: even past the next boundary nothing
    // else goes out until the transport reports completion.
    assert!(s.on_tick(25, &mut c).is_none());
    s.send_complete();
    assert!(s.on_tick(25, &mut c).is_some());
}

#[test]
fn boundaries_advance_without_drift() {
    // Ticks served late, but within one interval: the grid stays exact.
    let mut c = EdgeCounter::new();
    let mut s = BroadcastScheduler::with_config(100, 10, 60, 8);
    for (now, expected_next) in [(113u64, 120u64), (127, 130), (130, 140), (149, 150)] {
        assert!(s.on_tick(now, &mut c).is_some(), "tick at {now} was due");
        s.send_complete();
        assert_eq!(s.next_boundary(), expected_next);
    }
}

#[test]
fn stall_skips_missed_boundaries() {
    // Boundaries 110, 120, 130, 140 all pass during a stall; on resumption
    // at 145 exactly one broadcast goes out and the next boundary is 150,
    // the first one still in the future.
    let mut c = EdgeCounter::new();
    let mut s = BroadcastScheduler::with_config(100, 10, 60, 8);
    assert!(s.on_tick(145, &mut c).is_some());
    s.send_complete();
    assert_eq!(s.next_boundary(), 150);
    assert!(s.on_tick(149, &mut c).is_none());
    assert!(s.on_tick(150, &mut c).is_some());
}

#[test]
fn discovery_registers_and_acknowledges() {
    // An inbound broadcast from a new peer: registered, and exactly one
    // unicast acknowledgment owed to it.
    let p1 = PeerAddress { bits: 0x0a_0b_0c_0d_0e_0f };
    let mut s = BroadcastScheduler::with_config(0, 10, 60, 8);
    assert_eq!(s.peer_table().len(), 0);
    let frame = Frame {
        source: p1,
        destination: PeerAddress::broadcast(),
        payload: b"0".to_vec(),
    };
    match s.on_frame(&frame) {
        FrameDisposition::Discovered { count, ack_to } => {
            assert_eq!(count, 0);
            assert_eq!(ack_to, p1);
        },
        other => panic!("expected discovery, got {other:?}"),
    }
    assert!(s.peer_table().contains(p1));
    assert_eq!(s.peer_table().len(), 1);
    let ack = s.make_ack(p1);
    assert_eq!(ack.destination, p1);
    assert_eq!(ack.payload, b"0".to_vec());
}

#[test]
fn known_peer_is_not_acknowledged_again() {
    let p1 = PeerAddress { bits: 42 };
    let mut s = BroadcastScheduler::with_config(0, 10, 60, 8);
    let frame = Frame {
        source: p1,
        destination: PeerAddress::broadcast(),
        payload: b"17".to_vec(),
    };
    assert!(matches!(s.on_frame(&frame), FrameDisposition::Discovered { .. }));
    let again = Frame {
        source: p1,
        destination: PeerAddress::broadcast(),
        payload: b"18".to_vec(),
    };
    assert_eq!(s.on_frame(&again), FrameDisposition::KnownPeer { count: 18 });
    assert_eq!(s.peer_table().len(), 1);
}

#[test]
fn unicast_frames_do_not_discover() {
    let p1 = PeerAddress { bits: 42 };
    let ours = PeerAddress { bits: 7 };
    let mut s = BroadcastScheduler::with_config(0, 10, 60, 8);
    let frame = Frame { source: p1, destination: ours, payload: b"5".to_vec() };
    assert_eq!(s.on_frame(&frame), FrameDisposition::Unicast { count: 5 });
    assert_eq!(s.peer_table().len(), 0);
}

#[test]
fn malformed_frames_are_ignored_whole() {
    let p1 = PeerAddress { bits: 42 };
    let mut s = BroadcastScheduler::with_config(0, 10, 60, 8);
    for payload in [b"".to_vec(), b"07".to_vec(), b"1x".to_vec()] {
        let frame = Frame { source: p1, destination: PeerAddress::broadcast(), payload };
        assert_eq!(s.on_frame(&frame), FrameDisposition::Malformed);
    }
    assert_eq!(s.peer_table().len(), 0);
}

#[test]
fn full_table_suppresses_acknowledgment() {
    let mut s = BroadcastScheduler::with_config(0, 10, 60, 2);
    for bits in 1..=2u64 {
        let frame = Frame {
            source: PeerAddress { bits },
            destination: PeerAddress::broadcast(),
            payload: b"1".to_vec(),
        };
        assert!(matches!(s.on_frame(&frame), FrameDisposition::Discovered { .. }));
    }
    let frame = Frame {
        source: PeerAddress { bits: 3 },
        destination: PeerAddress::broadcast(),
        payload: b"1".to_vec(),
    };
    assert_eq!(s.on_frame(&frame), FrameDisposition::TableFull { count: 1 });
    assert_eq!(s.peer_table().len(), 2);
    assert!(!s.peer_table().contains(PeerAddress { bits: 3 }));
}

#[test]
fn ack_carries_current_rolling_sum() {
    let mut c = EdgeCounter::new();
    let mut s = BroadcastScheduler::with_config(0, 10, 60, 8);
    c.record_edge();
    c.record_edge();
    assert!(s.on_tick(10, &mut c).is_some());
    s.send_complete();
    let ack = s.make_ack(PeerAddress { bits: 9 });
    assert_eq!(ack.payload, b"2".to_vec());
}
