//! The interrupt-safe edge counter: the one piece of state shared between the
//! edge-detector interrupt and the cooperative main loop.
//!
//! Both operations run their whole access inside a critical section that masks
//! the interrupt source, so every access to the counter is serialized: an
//! interleaving of `record_edge` and `drain` calls behaves as some sequence of
//! the two atomic operations.  The model at the bottom of this module states
//! and proves, over any such sequence, that no increment is ever lost or
//! double-counted across a reset.

use vstd::prelude::*;

verus! {

/// A monotonically increasing event counter, incremented once per qualifying
/// edge by the interrupt handler and read-and-reset by the main loop at each
/// tick boundary.
pub struct EdgeCounter {
    count: u32,
}

impl EdgeCounter {
    /// Edges recorded since the last drain.
    pub closed spec fn count(&self) -> u32 {
        self.count
    }

    /// A fresh counter: nothing observed yet.
    pub fn new() -> (c: EdgeCounter)
        ensures
            c.count() == 0,
    {
        EdgeCounter { count: 0 }
    }

    /// The increment itself; `record_edge` runs it with the interrupt source
    /// masked.
    fn record_edge_locked(&mut self)
        requires
            old(self).count() < u32::MAX,
        ensures
            final(self).count() == old(self).count() + 1,
    {
        self.count = self.count + 1;
    }

    /// Records one qualifying edge.  Callable from interrupt context: bounded
    /// time, no blocking, no allocation.
    ///
    /// Relies on `critical_section::with`: it runs the closure exactly once,
    /// inside a critical section, and returns its result; the increment in the
    /// closure is the verified `record_edge_locked`.
    #[verifier::external_body]
    pub fn record_edge(&mut self)
        requires
            old(self).count() < u32::MAX,
        ensures
            final(self).count() == old(self).count() + 1,
    {
        critical_section::with(|_cs| self.record_edge_locked())
    }

    /// The read-and-reset itself; `drain` runs it with the interrupt source
    /// masked so that the read and the reset are one indivisible step.
    fn drain_locked(&mut self) -> (drained: u32)
        ensures
            final(self).count() == 0,
            drained == old(self).count(),
    {
        let v = self.count;
        self.count = 0;
        v
    }

    /// Atomically reads the edges recorded since the previous drain and
    /// resets the counter to zero.  Callable only from the main loop.
    ///
    /// Relies on `critical_section::with`: it runs the closure exactly once,
    /// inside a critical section, and returns its result; the read-and-reset
    /// in the closure is the verified `drain_locked`.
    #[verifier::external_body]
    pub fn drain(&mut self) -> (drained: u32)
        ensures
            final(self).count() == 0,
            drained == old(self).count(),
    {
        critical_section::with(|_cs| self.drain_locked())
    }
}

/// One serialized access to the counter: the critical section turns any
/// interleaving of interrupt-context increments and main-loop drains into a
/// sequence of these.
pub enum CounterOp {
    /// An interrupt-context `record_edge` call.
    Edge,
    /// A main-loop `drain` call.
    Drain,
}

/// The counter value after applying `ops` in order to a fresh counter,
/// following the contracts of `record_edge` (adds one) and `drain` (resets
/// to zero).
pub open spec fn pending_after(ops: Seq<CounterOp>) -> int
    decreases ops.len(),
{
    if ops.len() == 0 {
        0
    } else {
        match ops.last() {
            CounterOp::Edge => pending_after(ops.drop_last()) + 1,
            CounterOp::Drain => 0,
        }
    }
}

/// The sum of the values returned by all the drains in `ops`, following the
/// contract of `drain`: each returns exactly the count pending when it runs.
pub open spec fn drained_total(ops: Seq<CounterOp>) -> int
    decreases ops.len(),
{
    if ops.len() == 0 {
        0
    } else {
        match ops.last() {
            CounterOp::Edge => drained_total(ops.drop_last()),
            CounterOp::Drain => drained_total(ops.drop_last()) + pending_after(ops.drop_last()),
        }
    }
}

/// How many edges were recorded in `ops`.
pub open spec fn edges_in(ops: Seq<CounterOp>) -> int
    decreases ops.len(),
{
    if ops.len() == 0 {
        0
    } else {
        match ops.last() {
            CounterOp::Edge => edges_in(ops.drop_last()) + 1,
            CounterOp::Drain => edges_in(ops.drop_last()),
        }
    }
}

/// **No lost increments**: for any interleaving of increments and drains,
/// every recorded edge is either still pending or was returned by exactly one
/// drain — the drains' total plus the pending count equals the number of
/// edges recorded.
pub proof fn lemma_no_lost_increments(ops: Seq<CounterOp>)
    ensures
        drained_total(ops) + pending_after(ops) == edges_in(ops),
    decreases ops.len(),
{
    if ops.len() > 0 {
        lemma_no_lost_increments(ops.drop_last());
    }
}

/// Corollary: once a final drain has run, the values returned by the drains
/// sum to exactly the number of edges recorded.
pub proof fn lemma_all_edges_drained(ops: Seq<CounterOp>)
    requires
        ops.len() >= 1,
        ops.last() is Drain,
    ensures
        drained_total(ops) == edges_in(ops),
{
    lemma_no_lost_increments(ops);
}

} // verus!
