//! The broadcast scheduler: the drift-free cadence of the node.
//!
//! Every `tick_interval` the scheduler drains the edge counter into the
//! window, computes the rolling sum and hands the control loop one broadcast
//! send; in between it classifies inbound frames, registering newly seen
//! peers and deciding when an acknowledgment is owed.  The next boundary is
//! always reached by adding whole intervals to the previous one — never by
//! reading "now plus interval" — so processing latency cannot accumulate
//! drift, and a stall that overruns whole intervals yields exactly one
//! broadcast, not a burst of catch-up sends.
//!
//! The scheduler never performs I/O: the control loop passes the transport's
//! clock readings and received frames in, and carries the returned send
//! requests out to the transport.

use vstd::prelude::*;
use vstd::arithmetic::div_mod::{lemma_mod_multiples_vanish, lemma_mod_self_0};
use vstd::arithmetic::mul::{lemma_mul_basics, lemma_mul_is_commutative, lemma_mul_is_distributive_add};
use crate::edge_counter::EdgeCounter;
use crate::payload::{dec_digits, format_count, parse_count, payload_valid, decimal_value};
use crate::peer::{PeerAddress, PeerTable, RegisterOutcome, BROADCAST_BITS, register_model};
use crate::window::{sum_of, zero_window, WindowAggregator, WINDOW_TICKS};

verus! {

/// Length of one aggregation/broadcast tick, in the transport clock's
/// milliseconds.  Aggregation tick and broadcast period coincide: one
/// broadcast per tick.
pub const TICK_INTERVAL_MILLIS: u64 = 1000;

/// The most peers the node ever tracks.
pub const PEER_CAPACITY: usize = 8;

/// One inbound radio frame, as the transport delivers it.
pub struct Frame {
    /// Link-layer address the frame came from.
    pub source: PeerAddress,
    /// Link-layer address it was sent to: ours, or the broadcast sentinel.
    pub destination: PeerAddress,
    /// The payload bytes.
    pub payload: Vec<u8>,
}

/// One outbound send for the control loop to hand to the transport.
pub struct SendRequest {
    /// Where to send: the broadcast sentinel or one peer.
    pub destination: PeerAddress,
    /// The payload bytes: a count in the decimal wire format.
    pub payload: Vec<u8>,
}

/// The two states of the broadcast state machine.
#[derive(Clone, Copy, PartialEq, Eq, Structural, Debug)]
pub enum SchedulerPhase {
    /// Waiting for the next tick boundary.
    Idle,
    /// A send is outstanding; `send_complete` returns to `Idle`.
    Transmitting,
}

/// How the scheduler disposed of one inbound frame.
#[derive(Clone, Copy, PartialEq, Eq, Structural, Debug)]
pub enum FrameDisposition {
    /// The payload is not a well-formed count: the frame is ignored whole.
    Malformed,
    /// A frame addressed to us alone: no discovery on unicast traffic.
    Unicast {
        /// The count the sender reported.
        count: u64,
    },
    /// A broadcast from a peer already registered: no acknowledgment owed.
    KnownPeer {
        /// The count the sender reported.
        count: u64,
    },
    /// A broadcast from a new peer, now registered: acknowledge by unicast.
    Discovered {
        /// The count the sender reported.
        count: u64,
        /// Where the acknowledgment is owed.
        ack_to: PeerAddress,
    },
    /// A broadcast from a new peer, but the table is full: registration
    /// dropped, and no acknowledgment for a peer we could not register.
    TableFull {
        /// The count the sender reported.
        count: u64,
    },
}

/// The first boundary on the grid `boundary + k * interval` that lies
/// strictly after `now` — the boundary the scheduler holds after serving a
/// tick at instant `now`.  Boundaries the processing overran are skipped,
/// not queued.
pub open spec fn next_boundary_after(boundary: int, interval: int, now: int) -> int
    decreases now + interval - boundary,
{
    if interval < 1 || boundary > now {
        boundary
    } else {
        next_boundary_after(boundary + interval, interval, now)
    }
}

/// The boundary the scheduler holds after serving ticks at the instants
/// `nows`, oldest first, having been started at `start`: construction
/// schedules the first boundary one interval after `start`, and each served
/// tick advances the boundary past that tick's instant.
pub open spec fn boundaries_model(start: int, interval: int, nows: Seq<int>) -> int
    decreases nows.len(),
{
    if nows.len() == 0 {
        start + interval
    } else {
        next_boundary_after(
            boundaries_model(start, interval, nows.drop_last()),
            interval,
            nows.last(),
        )
    }
}

/// A tick served less than one interval past its boundary advances the
/// boundary by exactly one interval.
proof fn lemma_advance_one(boundary: int, interval: int, now: int)
    requires
        interval >= 1,
        boundary <= now < boundary + interval,
    ensures
        next_boundary_after(boundary, interval, now) == boundary + interval,
{
    assert(next_boundary_after(boundary + interval, interval, now) == boundary + interval);
}

/// **Scheduler drift-free**: as long as every tick is served within one
/// interval of its boundary, the boundary after `k` served ticks is exactly
/// `start + (k + 1) * interval`: varying processing latency never shifts
/// the grid and rounding never accumulates.
pub proof fn lemma_drift_free(start: int, interval: int, nows: Seq<int>)
    requires
        interval >= 1,
        forall|i: int|
            #![trigger nows.take(i)]
            0 <= i < nows.len() ==> boundaries_model(start, interval, nows.take(i)) <= nows[i]
                && nows[i] < boundaries_model(start, interval, nows.take(i)) + interval,
    ensures
        boundaries_model(start, interval, nows) == start + (nows.len() + 1) * interval,
    decreases nows.len(),
{
    if nows.len() == 0 {
        lemma_mul_basics(interval);
        lemma_mul_is_commutative(1, interval);
    } else {
        let prev = nows.drop_last();
        let k = prev.len() as int;
        assert forall|i: int|
            #![trigger prev.take(i)]
            0 <= i < prev.len() implies boundaries_model(start, interval, prev.take(i)) <= prev[i]
            && prev[i] < boundaries_model(start, interval, prev.take(i)) + interval by {
            assert(prev.take(i) =~= nows.take(i));
            assert(prev[i] == nows[i]);
        }
        lemma_drift_free(start, interval, prev);
        assert(nows.take(k) =~= prev);
        lemma_advance_one(boundaries_model(start, interval, prev), interval, nows.last());
        // (k + 2) * interval == (k + 1) * interval + interval
        lemma_mul_is_commutative(k + 2, interval);
        lemma_mul_is_commutative(k + 1, interval);
        lemma_mul_is_distributive_add(interval, k + 1, 1);
    }
}

/// **Skip, not burst**: when processing stalls past one or more boundaries,
/// the single tick served on resumption moves the boundary to the first
/// grid point still in the future — strictly after `now`, at most one
/// interval after `now`, and still on the original grid.  Together with
/// `on_tick`'s contract (one send per served tick, none before the
/// boundary) this means exactly one broadcast follows a stall, and the
/// missed broadcasts are dropped, not queued.
pub proof fn lemma_skip_not_burst(boundary: int, interval: int, now: int)
    requires
        interval >= 1,
        boundary <= now,
    ensures
        next_boundary_after(boundary, interval, now) > now,
        next_boundary_after(boundary, interval, now) <= now + interval,
        (next_boundary_after(boundary, interval, now) - boundary) % interval == 0,
    decreases now - boundary,
{
    if boundary + interval > now {
        assert(next_boundary_after(boundary + interval, interval, now) == boundary + interval);
        lemma_mod_self_0(interval);
    } else {
        lemma_skip_not_burst(boundary + interval, interval, now);
        let b2 = next_boundary_after(boundary + interval, interval, now);
        lemma_mod_multiples_vanish(1, b2 - boundary - interval, interval);
        assert(interval * 1 + (b2 - boundary - interval) == b2 - boundary);
    }
}

/// Advances `boundary` by whole intervals until it passes `now`.
fn advance_boundary(boundary: u64, interval: u64, now: u64) -> (b: u64)
    requires
        interval >= 1,
        now <= u64::MAX - interval,
    ensures
        b == next_boundary_after(boundary as int, interval as int, now as int),
{
    let mut b = boundary;
    while b <= now
        invariant
            interval >= 1,
            now <= u64::MAX - interval,
            next_boundary_after(boundary as int, interval as int, now as int)
                == next_boundary_after(b as int, interval as int, now as int),
        decreases now + interval - b,
    {
        b = b + interval;
    }
    b
}

/// The periodic broadcast driver: owns the window, the peer table and the
/// cadence state; the edge counter stays outside, shared with the interrupt
/// handler, and is passed in at each tick.
pub struct BroadcastScheduler {
    window: WindowAggregator,
    peers: PeerTable,
    interval: u64,
    next_boundary: u64,
    phase: SchedulerPhase,
}

impl BroadcastScheduler {
    /// The per-tick counts currently in the window.
    pub closed spec fn slots(&self) -> Seq<u32> {
        self.window@
    }

    /// The window slot the next tick overwrites.
    pub closed spec fn slot_cursor(&self) -> int {
        self.window.cursor()
    }

    /// The registered peers, in registration order.
    pub closed spec fn known_peers(&self) -> Seq<PeerAddress> {
        self.peers@
    }

    /// The most peers the table will hold.
    pub closed spec fn peer_capacity(&self) -> int {
        self.peers.capacity()
    }

    /// The tick length.
    pub closed spec fn tick_interval(&self) -> u64 {
        self.interval
    }

    /// The next tick boundary on the broadcast grid.
    pub closed spec fn scheduled_boundary(&self) -> u64 {
        self.next_boundary
    }

    /// Idle, or waiting for an outstanding send to complete.
    pub closed spec fn current_phase(&self) -> SchedulerPhase {
        self.phase
    }

    /// Well-formed: valid window, valid peer table, a positive interval.
    pub open spec fn wf(&self) -> bool {
        &&& self.window_wf()
        &&& self.peers_wf()
        &&& self.tick_interval() >= 1
    }

    /// The window part of `wf`, stated through the scheduler's own views.
    pub open spec fn window_wf(&self) -> bool {
        &&& 1 <= self.slots().len() <= u32::MAX
        &&& 0 <= self.slot_cursor() < self.slots().len()
    }

    /// The peer-table part of `wf`, stated through the scheduler's own views.
    pub open spec fn peers_wf(&self) -> bool {
        &&& self.known_peers().len() <= self.peer_capacity()
        &&& forall|i: int, j: int|
            0 <= i < j < self.known_peers().len() ==> self.known_peers()[i]
                != self.known_peers()[j]
    }

    /// A tick is due: idle, and the boundary reached.
    pub open spec fn due(&self, now: u64) -> bool {
        self.current_phase() is Idle && now >= self.scheduled_boundary()
    }

    /// A scheduler with explicit cadence and capacities, started at instant
    /// `start`: empty window, empty peer table, first boundary one interval
    /// after `start`.
    pub fn with_config(start: u64, interval: u64, window_len: usize, peer_capacity: usize) -> (s:
        BroadcastScheduler)
        requires
            interval >= 1,
            1 <= window_len <= u32::MAX,
            start <= u64::MAX - interval,
        ensures
            s.wf(),
            s.tick_interval() == interval,
            s.scheduled_boundary() == start + interval,
            s.slots() == zero_window(window_len as nat),
            s.slot_cursor() == 0,
            s.known_peers() == Seq::<PeerAddress>::empty(),
            s.peer_capacity() == peer_capacity,
            s.current_phase() is Idle,
    {
        BroadcastScheduler {
            window: WindowAggregator::new(window_len),
            peers: PeerTable::new(peer_capacity),
            interval,
            next_boundary: start + interval,
            phase: SchedulerPhase::Idle,
        }
    }

    /// A scheduler with the build-time cadence and capacities.
    pub fn new(start: u64) -> (s: BroadcastScheduler)
        requires
            start <= u64::MAX - TICK_INTERVAL_MILLIS,
        ensures
            s.wf(),
            s.tick_interval() == TICK_INTERVAL_MILLIS,
            s.scheduled_boundary() == start + TICK_INTERVAL_MILLIS,
            s.slots() == zero_window(WINDOW_TICKS as nat),
            s.slot_cursor() == 0,
            s.known_peers() == Seq::<PeerAddress>::empty(),
            s.peer_capacity() == PEER_CAPACITY,
            s.current_phase() is Idle,
    {
        Self::with_config(start, TICK_INTERVAL_MILLIS, WINDOW_TICKS, PEER_CAPACITY)
    }

    /// The next tick boundary, for the control loop's own pacing.
    pub fn next_boundary(&self) -> (b: u64)
        ensures
            b == self.scheduled_boundary(),
    {
        self.next_boundary
    }

    /// Read access to the peer table.
    pub fn peer_table(&self) -> (t: &PeerTable)
        ensures
            t@ == self.known_peers(),
    {
        &self.peers
    }

    /// Serves one main-loop iteration of the outbound cadence at instant
    /// `now`.  Before the boundary, or while a send is outstanding, this
    /// does nothing.  At or past the boundary it drains the counter into
    /// the window, advances the boundary to the first grid point after
    /// `now`, and returns the one broadcast to send: the new rolling sum in
    /// the decimal wire format, addressed to the broadcast sentinel.
    pub fn on_tick(&mut self, now: u64, counter: &mut EdgeCounter) -> (action: Option<
        SendRequest,
    >)
        requires
            old(self).wf(),
            now <= u64::MAX - old(self).tick_interval(),
        ensures
            final(self).wf(),
            final(self).tick_interval() == old(self).tick_interval(),
            final(self).known_peers() == old(self).known_peers(),
            final(self).peer_capacity() == old(self).peer_capacity(),
            !old(self).due(now) ==> action is None && *final(self) == *old(self) && *final(counter)
                == *old(counter),
            old(self).due(now) ==> match action {
                Some(req) => {
                    &&& req.destination.bits == BROADCAST_BITS
                    &&& req.payload@ == dec_digits(
                        sum_of(
                            old(self).slots().update(
                                old(self).slot_cursor(),
                                old(counter).count(),
                            ),
                        ) as nat,
                    )
                    &&& final(counter).count() == 0
                    &&& final(self).slots() == old(self).slots().update(
                        old(self).slot_cursor(),
                        old(counter).count(),
                    )
                    &&& final(self).slot_cursor() == (old(self).slot_cursor() + 1) % (old(
                    self,
                    ).slots().len() as int)
                    &&& final(self).scheduled_boundary() == next_boundary_after(
                        old(self).scheduled_boundary() as int,
                        old(self).tick_interval() as int,
                        now as int,
                    )
                    &&& final(self).current_phase() is Transmitting
                },
                None => false,
            },
    {
        match self.phase {
            SchedulerPhase::Transmitting => {
                return None;
            },
            SchedulerPhase::Idle => {},
        }
        if now < self.next_boundary {
            return None;
        }
        let drained = counter.drain();
        self.window.push_tick(drained);
        let total = self.window.rolling_sum();
        let digits = format_count(total);
        self.next_boundary = advance_boundary(self.next_boundary, self.interval, now);
        self.phase = SchedulerPhase::Transmitting;
        Some(SendRequest { destination: PeerAddress { bits: BROADCAST_BITS }, payload: digits })
    }

    /// Marks the outstanding send finished.  Success and failure are both
    /// terminal for the tick: nothing is retried, the scheduler just waits
    /// for the next boundary.
    pub fn send_complete(&mut self)
        ensures
            final(self).current_phase() is Idle,
            final(self).slots() == old(self).slots(),
            final(self).slot_cursor() == old(self).slot_cursor(),
            final(self).known_peers() == old(self).known_peers(),
            final(self).peer_capacity() == old(self).peer_capacity(),
            final(self).tick_interval() == old(self).tick_interval(),
            final(self).scheduled_boundary() == old(self).scheduled_boundary(),
            final(self).wf() == old(self).wf(),
    {
        self.phase = SchedulerPhase::Idle;
    }

    /// Classifies one inbound frame and services peer discovery.  A frame
    /// whose payload is not a well-formed count is ignored whole.  A
    /// broadcast frame from an address not yet registered registers it —
    /// unless the table is full, in which case the request is dropped — and
    /// an acknowledgment is owed exactly to a newly registered peer.
    pub fn on_frame(&mut self, frame: &Frame) -> (d: FrameDisposition)
        requires
            old(self).wf(),
        ensures
            final(self).wf(),
            final(self).slots() == old(self).slots(),
            final(self).slot_cursor() == old(self).slot_cursor(),
            final(self).tick_interval() == old(self).tick_interval(),
            final(self).scheduled_boundary() == old(self).scheduled_boundary(),
            final(self).current_phase() == old(self).current_phase(),
            final(self).peer_capacity() == old(self).peer_capacity(),
            match d {
                FrameDisposition::Malformed => !payload_valid(frame.payload@) && *final(self)
                    == *old(self),
                FrameDisposition::Unicast { count } => {
                    &&& payload_valid(frame.payload@)
                    &&& count == decimal_value(frame.payload@)
                    &&& frame.destination.bits != BROADCAST_BITS
                    &&& *final(self) == *old(self)
                },
                FrameDisposition::KnownPeer { count } => {
                    &&& payload_valid(frame.payload@)
                    &&& count == decimal_value(frame.payload@)
                    &&& frame.destination.bits == BROADCAST_BITS
                    &&& old(self).known_peers().contains(frame.source)
                    &&& final(self).known_peers() == old(self).known_peers()
                },
                FrameDisposition::Discovered { count, ack_to } => {
                    &&& payload_valid(frame.payload@)
                    &&& count == decimal_value(frame.payload@)
                    &&& frame.destination.bits == BROADCAST_BITS
                    &&& !old(self).known_peers().contains(frame.source)
                    &&& old(self).known_peers().len() < old(self).peer_capacity()
                    &&& ack_to == frame.source
                    &&& final(self).known_peers() == old(self).known_peers().push(frame.source)
                },
                FrameDisposition::TableFull { count } => {
                    &&& payload_valid(frame.payload@)
                    &&& count == decimal_value(frame.payload@)
                    &&& frame.destination.bits == BROADCAST_BITS
                    &&& !old(self).known_peers().contains(frame.source)
                    &&& old(self).known_peers().len() >= old(self).peer_capacity()
                    &&& final(self).known_peers() == old(self).known_peers()
                },
            },
            final(self).known_peers() == register_model(
                old(self).known_peers(),
                old(self).peer_capacity(),
                frame.source,
            ) || *final(self) == *old(self),
    {
        let count: u64 = match parse_count(&frame.payload) {
            Some(c) => c,
            None => {
                return FrameDisposition::Malformed;
            },
        };
        if !frame.destination.is_broadcast() {
            return FrameDisposition::Unicast { count };
        }
        match self.peers.register(frame.source) {
            RegisterOutcome::AlreadyPresent => FrameDisposition::KnownPeer { count },
            RegisterOutcome::Registered => FrameDisposition::Discovered {
                count,
                ack_to: frame.source,
            },
            RegisterOutcome::TableFull => FrameDisposition::TableFull { count },
        }
    }

    /// Builds the unicast acknowledgment owed to a newly discovered peer:
    /// our current rolling sum, in the same wire format as a broadcast.
    pub fn make_ack(&self, to: PeerAddress) -> (req: SendRequest)
        requires
            self.wf(),
        ensures
            req.destination == to,
            req.payload@ == dec_digits(sum_of(self.slots()) as nat),
    {
        let total = self.window.rolling_sum();
        SendRequest { destination: to, payload: format_count(total) }
    }
}

} // verus!
