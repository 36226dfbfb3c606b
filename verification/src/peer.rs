//! Peer addressing and the bounded peer table.
//!
//! A peer is known only by its fixed-width link-layer address.  The table is
//! a bounded set of unique addresses, populated reactively by the main loop
//! when a broadcast frame arrives from an address not yet present; entries
//! are never removed, and a registration that would exceed the capacity is
//! dropped.

use vstd::prelude::*;

verus! {

/// The all-ones address reserved as the broadcast sentinel: "all peers".
pub const BROADCAST_BITS: u64 = 0xffff_ffff_ffff;

/// A fixed-width link-layer address, used both as a unicast destination and
/// — for the all-ones value — as the broadcast sentinel.
#[derive(Clone, Copy, PartialEq, Eq, Structural, Debug)]
pub struct PeerAddress {
    /// The 48 address bits, packed into the low bits of a word.
    pub bits: u64,
}

impl PeerAddress {
    /// A well-formed address fits the link-layer address width.
    pub open spec fn wf(&self) -> bool {
        self.bits < 0x1_0000_0000_0000
    }

    /// The broadcast sentinel.
    pub fn broadcast() -> (a: PeerAddress)
        ensures
            a.bits == BROADCAST_BITS,
            a.wf(),
    {
        PeerAddress { bits: BROADCAST_BITS }
    }

    /// Packs the six octets of a link-layer address, as the radio hands them
    /// over, most significant octet first.
    pub fn from_octets(octets: &[u8; 6]) -> (a: PeerAddress)
        ensures
            a.bits == octets@[0] * 0x100_0000_0000 + octets@[1] * 0x1_0000_0000 + octets@[2]
                * 0x100_0000 + octets@[3] * 0x1_0000 + octets@[4] * 0x100 + octets@[5],
            a.wf(),
    {
        let b0 = octets[0] as u64;
        let b1 = octets[1] as u64;
        let b2 = octets[2] as u64;
        let b3 = octets[3] as u64;
        let b4 = octets[4] as u64;
        let b5 = octets[5] as u64;
        PeerAddress {
            bits: b0 * 0x100_0000_0000 + b1 * 0x1_0000_0000 + b2 * 0x100_0000 + b3 * 0x1_0000 + b4
                * 0x100 + b5,
        }
    }

    /// Is this the broadcast sentinel?
    pub fn is_broadcast(&self) -> (r: bool)
        ensures
            r == (self.bits == BROADCAST_BITS),
    {
        self.bits == BROADCAST_BITS
    }
}

/// What a registration attempt did.
#[derive(Clone, Copy, PartialEq, Eq, Structural, Debug)]
pub enum RegisterOutcome {
    /// The address was already present: nothing changed.
    AlreadyPresent,
    /// The address was inserted.
    Registered,
    /// The table is at capacity: the registration was dropped.
    TableFull,
}

/// The table after registering `a` into contents `s` under capacity `cap`:
/// unchanged if `a` is present or the table is full, else `s` with `a`
/// appended.
pub open spec fn register_model(s: Seq<PeerAddress>, cap: int, a: PeerAddress) -> Seq<
    PeerAddress,
> {
    if s.contains(a) {
        s
    } else if s.len() < cap {
        s.push(a)
    } else {
        s
    }
}

/// **Peer idempotence**: registering the same address a second time never
/// changes the table again — in particular its size stays the same.
pub proof fn lemma_register_idempotent(s: Seq<PeerAddress>, cap: int, a: PeerAddress)
    ensures
        register_model(register_model(s, cap, a), cap, a) == register_model(s, cap, a),
        register_model(register_model(s, cap, a), cap, a).len() == register_model(s, cap, a).len(),
{
    if !s.contains(a) && s.len() < cap {
        assert(s.push(a)[s.len() as int] == a);
        assert(s.push(a).contains(a));
    }
}

/// A bounded set of unique peer addresses.
pub struct PeerTable {
    entries: Vec<PeerAddress>,
    capacity: usize,
}

impl View for PeerTable {
    type V = Seq<PeerAddress>;

    closed spec fn view(&self) -> Seq<PeerAddress> {
        self.entries@
    }
}

impl PeerTable {
    /// The most peers the table will ever hold.
    pub closed spec fn capacity(&self) -> int {
        self.capacity as int
    }

    /// Well-formed: within capacity and free of duplicates.
    pub open spec fn wf(&self) -> bool {
        &&& self@.len() <= self.capacity()
        &&& forall|i: int, j: int| 0 <= i < j < self@.len() ==> self@[i] != self@[j]
    }

    /// Is `addr` registered?
    pub open spec fn has(&self, addr: PeerAddress) -> bool {
        self@.contains(addr)
    }

    /// An empty table with room for `capacity` peers.
    pub fn new(capacity: usize) -> (t: PeerTable)
        ensures
            t.wf(),
            t@ == Seq::<PeerAddress>::empty(),
            t.capacity() == capacity,
    {
        let t = PeerTable { entries: Vec::new(), capacity };
        proof {
            assert(t@ =~= Seq::<PeerAddress>::empty());
        }
        t
    }

    /// How many peers are registered.
    pub fn len(&self) -> (n: usize)
        ensures
            n == self@.len(),
    {
        self.entries.len()
    }

    /// The registered peer at position `i`, for iterating over known peers.
    pub fn peer_at(&self, i: usize) -> (a: PeerAddress)
        requires
            i < self@.len(),
        ensures
            a == self@[i as int],
    {
        self.entries[i]
    }

    /// Linear scan for `addr`.
    pub fn contains(&self, addr: PeerAddress) -> (r: bool)
        ensures
            r == self.has(addr),
    {
        let mut i: usize = 0;
        while i < self.entries.len()
            invariant
                0 <= i <= self@.len(),
                forall|j: int| 0 <= j < i ==> self@[j] != addr,
            decreases self@.len() - i,
        {
            if self.entries[i].bits == addr.bits {
                return true;
            }
            i = i + 1;
        }
        false
    }

    /// Registers `addr`: a no-op if already present, an append if there is
    /// room, and a dropped request if the table is full.
    pub fn register(&mut self, addr: PeerAddress) -> (outcome: RegisterOutcome)
        requires
            old(self).wf(),
        ensures
            final(self).wf(),
            final(self).capacity() == old(self).capacity(),
            final(self)@ == register_model(old(self)@, old(self).capacity(), addr),
            outcome == RegisterOutcome::AlreadyPresent <==> old(self).has(addr),
            outcome == RegisterOutcome::Registered <==> !old(self).has(addr) && old(self)@.len()
                < old(self).capacity(),
            outcome == RegisterOutcome::TableFull <==> !old(self).has(addr) && old(self)@.len()
                >= old(self).capacity(),
            final(self).has(addr) || outcome == RegisterOutcome::TableFull,
    {
        if self.contains(addr) {
            RegisterOutcome::AlreadyPresent
        } else if self.entries.len() < self.capacity {
            self.entries.push(addr);
            proof {
                assert(self.entries@[old(self)@.len() as int] == addr);
            }
            RegisterOutcome::Registered
        } else {
            RegisterOutcome::TableFull
        }
    }
}

} // verus!
