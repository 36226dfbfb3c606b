use edge_beacon::peer::{PeerAddress, PeerTable, RegisterOutcome, BROADCAST_BITS};

#[test]
fn fresh_table_is_empty() {
    let t = PeerTable::new(8);
    assert_eq!(t.len(), 0);
    assert!(!t.contains(PeerAddress { bits: 1 }));
}

#[test]
fn register_then_contains() {
    let mut t = PeerTable::new(8);
    let a = PeerAddress { bits: 0x12_34_56_78_9a_bc };
    assert_eq!(t.register(a), RegisterOutcome::Registered);
    assert!(t.contains(a));
    assert_eq!(t.len(), 1);
    assert_eq!(t.peer_at(0), a);
}

#[test]
fn register_twice_is_idempotent() {
    let mut t = PeerTable::new(8);
    let a = PeerAddress { bits: 7 };
    assert_eq!(t.register(a), RegisterOutcome::Registered);
    assert_eq!(t.len(), 1);
    assert_eq!(t.register(a), RegisterOutcome::AlreadyPresent);
    assert_eq!(t.len(), 1);
}

#[test]
fn full_table_drops_registration() {
    let mut t = PeerTable::new(2);
    assert_eq!(t.register(PeerAddress { bits: 1 }), RegisterOutcome::Registered);
    assert_eq!(t.register(PeerAddress { bits: 2 }), RegisterOutcome::Registered);
    assert_eq!(t.register(PeerAddress { bits: 3 }), RegisterOutcome::TableFull);
    assert_eq!(t.len(), 2);
    assert!(!t.contains(PeerAddress { bits: 3 }));
    // An address already present is still found when the table is full.
    assert_eq!(t.register(PeerAddress { bits: 2 }), RegisterOutcome::AlreadyPresent);
}

#[test]
fn from_octets_packs_big_endian() {
    let a = PeerAddress::from_octets(&[0x12, 0x34, 0x56, 0x78, 0x9a, 0xbc]);
    assert_eq!(a.bits, 0x12_34_56_78_9a_bc);
    let b = PeerAddress::from_octets(&[0xff; 6]);
    assert_eq!(b.bits, BROADCAST_BITS);
    assert!(b.is_broadcast());
    assert!(!a.is_broadcast());
}

#[test]
fn broadcast_sentinel() {
    let b = PeerAddress::broadcast();
    assert_eq!(b.bits, 0xffff_ffff_ffff);
    assert!(b.is_broadcast());
}
