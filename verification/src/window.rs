//! The sliding-window aggregator: a fixed-capacity ring of per-tick event
//! counts.  Each tick overwrites the slot under the cursor in place — old
//! data is overwritten, never shifted — and the rolling sum is the sum of all
//! slots, i.e. the events observed during the last `capacity` ticks.
//!
//! `window_model` replays a whole history of pushed counts through exactly
//! the step that `push_tick`'s contract states; the laws at the bottom prove
//! that the resulting rolling sum is the sum of the counts still inside the
//! window, and that a count pushed more than `capacity` ticks ago no longer
//! contributes.

use vstd::prelude::*;
use vstd::arithmetic::div_mod::{
    lemma_add_mod_noop, lemma_div_by_self, lemma_div_is_ordered, lemma_div_multiples_vanish,
    lemma_fundamental_div_mod, lemma_fundamental_div_mod_converse, lemma_mod_bound,
    lemma_mod_self_0, lemma_small_mod,
};
use vstd::arithmetic::mul::{lemma_mul_is_commutative, lemma_mul_is_distributive_sub};

verus! {

/// Number of ticks the window spans: the rolling sum counts the events of
/// the last `WINDOW_TICKS` ticks.
pub const WINDOW_TICKS: usize = 60;

/// A window of `n` slots all holding zero: the state at process start, which
/// correctly reports that no events were observed before it.
pub open spec fn zero_window(n: nat) -> Seq<u32> {
    Seq::new(n, |i: int| 0u32)
}

/// The sum of a sequence of per-tick counts.
pub open spec fn sum_of(s: Seq<u32>) -> int
    decreases s.len(),
{
    if s.len() == 0 {
        0
    } else {
        sum_of(s.drop_last()) + s.last()
    }
}

/// The ring contents after pushing `counts`, oldest first, onto a fresh
/// window of `n` slots: each push overwrites the slot at the write cursor,
/// which advances modulo `n` — one step of this recursion per `push_tick`.
pub open spec fn window_model(counts: Seq<u32>, n: nat) -> Seq<u32>
    decreases counts.len(),
{
    if counts.len() == 0 {
        zero_window(n)
    } else {
        window_model(counts.drop_last(), n).update(
            ((counts.len() - 1) as int) % (n as int),
            counts.last(),
        )
    }
}

/// The pushed counts that are still inside the window: all of them while
/// fewer than `n` were pushed, else the last `n`.
pub open spec fn live_counts(counts: Seq<u32>, n: nat) -> Seq<u32> {
    if counts.len() <= n {
        counts
    } else {
        counts.skip(counts.len() - n)
    }
}

/// The index of the push that last wrote slot `j`, when `m` counts have been
/// pushed and some push did reach slot `j`.
spec fn last_write(m: int, n: int, j: int) -> int {
    j + n * ((m - 1 - j) / n)
}

proof fn lemma_window_len(counts: Seq<u32>, n: nat)
    requires
        n >= 1,
    ensures
        window_model(counts, n).len() == n,
    decreases counts.len(),
{
    if counts.len() > 0 {
        lemma_window_len(counts.drop_last(), n);
        lemma_mod_bound(counts.len() - 1, n as int);
    }
}

proof fn lemma_sum_update(s: Seq<u32>, j: int, v: u32)
    requires
        0 <= j < s.len(),
    ensures
        sum_of(s.update(j, v)) == sum_of(s) - s[j] + v,
    decreases s.len(),
{
    if j == s.len() - 1 {
        assert(s.update(j, v).drop_last() =~= s.drop_last());
    } else {
        assert(s.update(j, v).drop_last() =~= s.drop_last().update(j, v));
        lemma_sum_update(s.drop_last(), j, v);
    }
}

proof fn lemma_sum_zero_window(n: nat)
    ensures
        sum_of(zero_window(n)) == 0,
    decreases n,
{
    if n > 0 {
        assert(zero_window(n).drop_last() =~= zero_window((n - 1) as nat));
        lemma_sum_zero_window((n - 1) as nat);
    }
}

proof fn lemma_sum_first(s: Seq<u32>)
    requires
        s.len() >= 1,
    ensures
        sum_of(s) == s[0] + sum_of(s.skip(1)),
    decreases s.len(),
{
    if s.len() == 1 {
        assert(s.drop_last() =~= Seq::<u32>::empty());
        assert(s.skip(1) =~= Seq::<u32>::empty());
    } else {
        lemma_sum_first(s.drop_last());
        assert(s.drop_last().skip(1) =~= s.skip(1).drop_last());
        assert(s.skip(1).last() == s.last());
    }
}

/// Which count each slot holds: slot `j` holds the count of the most recent
/// push that landed on it, or still zero if no push reached it yet.
proof fn lemma_window_slot(counts: Seq<u32>, n: nat, j: int)
    requires
        n >= 1,
        0 <= j < n,
    ensures
        j < counts.len() ==> 0 <= last_write(counts.len() as int, n as int, j) < counts.len(),
        j < counts.len() ==> window_model(counts, n)[j] == counts[last_write(
            counts.len() as int,
            n as int,
            j,
        )],
        j >= counts.len() ==> window_model(counts, n)[j] == 0u32,
    decreases counts.len(),
{
    let m = counts.len() as int;
    let nn = n as int;
    lemma_window_len(counts, n);
    if m == 0 {
        return;
    }
    let prev = counts.drop_last();
    lemma_window_len(prev, n);
    let p = (m - 1) % nn;
    lemma_mod_bound(m - 1, nn);
    lemma_fundamental_div_mod(m - 1, nn);
    let q1 = (m - 1) / nn;
    if j == p {
        // The final push landed on slot j itself.
        assert(m - 1 - j == nn * q1);
        lemma_div_multiples_vanish(q1, nn);
        assert(last_write(m, nn, j) == m - 1);
    } else {
        lemma_window_slot(prev, n, j);
        if j >= m {
            // Slot j was never written.
        } else if j == m - 1 {
            // Impossible: the very last push went to slot (m - 1) % n == j.
            lemma_small_mod(j as nat, n);
            assert(false);
        } else {
            // The final push went elsewhere; slot j still holds what it held
            // before, and the index of its last writer is unchanged.
            let r0 = (m - 1 - j) % nn;
            lemma_mod_bound(m - 1 - j, nn);
            lemma_fundamental_div_mod(m - 1 - j, nn);
            let q = (m - 1 - j) / nn;
            if r0 == 0 {
                // Then j == (m - 1) % n, contradicting j != p.
                lemma_mul_is_commutative(nn, q);
                lemma_fundamental_div_mod_converse(m - 1, nn, q, j);
                assert(false);
            }
            assert(m - 2 - j == nn * q + (r0 - 1));
            lemma_mul_is_commutative(nn, q);
            lemma_fundamental_div_mod_converse(m - 2 - j, nn, q, r0 - 1);
            assert((m - 2 - j) / nn == q);
            assert(last_write(m - 1, nn, j) == last_write(m, nn, j));
        }
    }
}

/// **Rolling sum correctness**: after pushing counts `c_0, …, c_k` onto a
/// fresh window of `n` slots, the sum of all `n` slots — what
/// `rolling_sum` returns — equals the sum of the last `min(k + 1, n)`
/// counts pushed; the slots no push has reached yet contribute zero.
pub proof fn lemma_rolling_sum_window(counts: Seq<u32>, n: nat)
    requires
        n >= 1,
    ensures
        sum_of(window_model(counts, n)) == sum_of(live_counts(counts, n)),
    decreases counts.len(),
{
    let m = counts.len() as int;
    let nn = n as int;
    if m == 0 {
        lemma_sum_zero_window(n);
        return;
    }
    let prev = counts.drop_last();
    let c = counts.last();
    let wprev = window_model(prev, n);
    let p = (m - 1) % nn;
    lemma_rolling_sum_window(prev, n);
    lemma_window_len(prev, n);
    lemma_mod_bound(m - 1, nn);
    lemma_sum_update(wprev, p, c);
    lemma_window_slot(prev, n, p);
    if m <= nn {
        // The window is not full yet: the last push landed on a still-zero
        // slot, so the sum simply grows by the new count.
        lemma_small_mod((m - 1) as nat, n);
        assert(p == m - 1);
        assert(wprev[p] == 0);
        assert(sum_of(window_model(counts, n)) == sum_of(prev) + c);
    } else {
        // The window is full: the last push overwrote the count pushed
        // exactly n ticks earlier, which thereby leaves the sum.
        lemma_fundamental_div_mod(m - 1, nn);
        let q1 = (m - 1) / nn;
        lemma_div_is_ordered(nn, m - 1, nn);
        lemma_div_by_self(nn);
        assert(q1 >= 1);
        lemma_mul_is_distributive_sub(nn, q1, 1);
        assert(m - 2 - p == nn * (q1 - 1) + (nn - 1));
        lemma_mul_is_commutative(nn, q1 - 1);
        lemma_fundamental_div_mod_converse(m - 2 - p, nn, q1 - 1, nn - 1);
        assert(last_write(m - 1, nn, p) == p + nn * (q1 - 1));
        assert(last_write(m - 1, nn, p) == m - 1 - nn);
        assert(wprev[p] == prev[m - 1 - nn]);
        // sum over prev's live counts, split off their first element.
        let live_prev = prev.skip(m - 1 - nn);
        assert(live_counts(prev, n) =~= live_prev);
        lemma_sum_first(live_prev);
        assert(live_prev[0] == prev[m - 1 - nn]);
        assert(live_prev.skip(1) =~= prev.skip(m - nn));
        // The new live counts are the old ones minus their first element,
        // plus the new count at the end.
        assert(counts.skip(m - nn).drop_last() =~= prev.skip(m - nn));
        assert(counts.skip(m - nn).last() == c);
        assert(sum_of(counts.skip(m - nn)) == sum_of(prev.skip(m - nn)) + c);
    }
}

/// **Ring overwrite**: after pushing `n + 1` counts onto a fresh window of
/// `n` slots, the first slot has been overwritten by the latest count, and
/// the rolling sum covers only the last `n` counts — the first count no
/// longer contributes.
pub proof fn lemma_ring_overwrite(counts: Seq<u32>, n: nat)
    requires
        n >= 1,
        counts.len() == n + 1,
    ensures
        window_model(counts, n)[0] == counts[n as int],
        sum_of(window_model(counts, n)) == sum_of(counts.skip(1)),
{
    let m = counts.len() as int;
    let nn = n as int;
    lemma_rolling_sum_window(counts, n);
    assert(live_counts(counts, n) =~= counts.skip(1));
    lemma_window_slot(counts, n, 0);
    // The push with index n wrote slot n % n == 0 last.
    lemma_div_by_self(nn);
    assert((m - 1 - 0) / nn == 1);
    assert(last_write(m, nn, 0) == 0 + nn * ((m - 1 - 0) / nn));
    assert(nn * 1 == nn);
    assert(last_write(m, nn, 0) == nn);
}

/// One `push_tick` keeps a window matching the model: overwriting the slot
/// under the cursor and advancing the cursor modulo the capacity — exactly
/// what `push_tick`'s contract states — is one step of `window_model`.
pub proof fn lemma_push_tick_matches_model(counts: Seq<u32>, n: nat, c: u32)
    requires
        n >= 1,
    ensures
        window_model(counts.push(c), n) == window_model(counts, n).update(
            (counts.len() as int) % (n as int),
            c,
        ),
        ((counts.len() as int) % (n as int) + 1) % (n as int) == ((counts.len() + 1) as int) % (
        n as int),
{
    let m = counts.len() as int;
    let nn = n as int;
    assert(counts.push(c).drop_last() =~= counts);
    assert(counts.push(c).last() == c);
    lemma_mod_bound(m, nn);
    if nn == 1 {
        lemma_mod_bound(m % nn + 1, nn);
        lemma_mod_self_0(nn);
        lemma_add_mod_noop(m, 1, nn);
    } else {
        lemma_small_mod(1, n);
        lemma_add_mod_noop(m, 1, nn);
    }
}

/// The ring buffer itself: `capacity` per-tick counts, all zero at start,
/// plus the cursor of the next slot to overwrite.
pub struct WindowAggregator {
    slots: Vec<u32>,
    cursor: usize,
}

impl View for WindowAggregator {
    type V = Seq<u32>;

    closed spec fn view(&self) -> Seq<u32> {
        self.slots@
    }
}

impl WindowAggregator {
    /// The slot the next push overwrites.
    pub closed spec fn cursor(&self) -> int {
        self.cursor as int
    }

    /// Well-formed: at least one slot, a bounded slot count, and the cursor
    /// inside the ring.
    pub open spec fn wf(&self) -> bool {
        &&& 1 <= self@.len() <= u32::MAX
        &&& 0 <= self.cursor() < self@.len()
    }

    /// A fresh window: `capacity` zeroed slots, cursor on the first slot.
    pub fn new(capacity: usize) -> (w: WindowAggregator)
        requires
            1 <= capacity <= u32::MAX,
        ensures
            w.wf(),
            w@ == zero_window(capacity as nat),
            w.cursor() == 0,
    {
        let mut slots: Vec<u32> = Vec::new();
        while slots.len() < capacity
            invariant
                slots@.len() <= capacity,
                forall|i: int| 0 <= i < slots@.len() ==> slots@[i] == 0u32,
            decreases capacity - slots@.len(),
        {
            slots.push(0);
        }
        proof {
            assert(slots@ =~= zero_window(capacity as nat));
        }
        WindowAggregator { slots, cursor: 0 }
    }

    /// How many ticks the window spans.
    pub fn len(&self) -> (n: usize)
        ensures
            n == self@.len(),
    {
        self.slots.len()
    }

    /// Overwrites the slot under the cursor with this tick's count and
    /// advances the cursor modulo the capacity.
    pub fn push_tick(&mut self, count: u32)
        requires
            old(self).wf(),
        ensures
            final(self).wf(),
            final(self)@ == old(self)@.update(old(self).cursor(), count),
            final(self).cursor() == (old(self).cursor() + 1) % (old(self)@.len() as int),
    {
        let n = self.slots.len();
        self.slots.set(self.cursor, count);
        if self.cursor + 1 == n {
            proof {
                lemma_mod_self_0(n as int);
            }
            self.cursor = 0;
        } else {
            proof {
                lemma_small_mod((self.cursor + 1) as nat, n as nat);
            }
            self.cursor = self.cursor + 1;
        }
    }

    /// The rolling sum: the total of all slots, i.e. the events observed
    /// during the last `capacity` ticks.
    pub fn rolling_sum(&self) -> (total: u64)
        requires
            self.wf(),
        ensures
            total == sum_of(self@),
    {
        let mut total: u64 = 0;
        let mut i: usize = 0;
        while i < self.slots.len()
            invariant
                self.wf(),
                0 <= i <= self@.len(),
                total == sum_of(self@.take(i as int)),
                total <= (i as int) * 0xffff_ffff,
            decreases self@.len() - i,
        {
            proof {
                assert(self@.take(i as int + 1).drop_last() =~= self@.take(i as int));
                assert(self@.take(i as int + 1).last() == self@[i as int]);
            }
            total = total + (self.slots[i] as u64);
            i = i + 1;
        }
        proof {
            assert(self@.take(self@.len() as int) =~= self@);
        }
        total
    }
}

} // verus!
