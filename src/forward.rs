//! The burst forwarding step: one iteration takes what ingress delivered,
//! submits it to egress in arrival order, counts what egress accepted and
//! hands back what it refused, in order, for release to the pool.

use vstd::prelude::*;
use crate::pool::{BufHandle, SlotPool};

verus! {

/// `total` raised by `n`, held at `u64::MAX` instead of wrapping.
pub open spec fn bump(total: u64, n: int) -> u64 {
    if total + n > u64::MAX {
        u64::MAX
    } else {
        (total + n) as u64
    }
}

/// The forwarding loop's own state: its burst bound and its cumulative
/// counts of forwarded and dropped buffers.
pub struct Forwarder {
    max_burst: u16,
    total_forwarded: u64,
    total_dropped: u64,
}

/// What to do with the buffers one poll of ingress delivered.
pub enum Step<H> {
    /// Nothing arrived: poll again, touching neither pool nor counters.
    Idle,
    /// Submit these buffers to egress, in this order.
    Submit(Vec<H>),
}

impl Forwarder {
    pub closed spec fn spec_max_burst(&self) -> nat {
        self.max_burst as nat
    }

    pub closed spec fn spec_forwarded(&self) -> u64 {
        self.total_forwarded
    }

    pub closed spec fn spec_dropped(&self) -> u64 {
        self.total_dropped
    }

    /// A loop that takes up to `max_burst` buffers per poll, with both
    /// counts at zero.
    pub fn new(max_burst: u16) -> (r: Forwarder)
        requires
            max_burst >= 1,
        ensures
            r.spec_max_burst() == max_burst,
            r.spec_forwarded() == 0,
            r.spec_dropped() == 0,
    {
        Forwarder { max_burst, total_forwarded: 0, total_dropped: 0 }
    }

    /// The most buffers one poll of ingress may deliver.
    pub fn max_burst(&self) -> (r: u16)
        ensures
            r == self.spec_max_burst(),
    {
        self.max_burst
    }

    /// Buffers that egress has accepted so far.
    pub fn total_forwarded(&self) -> (r: u64)
        ensures
            r == self.spec_forwarded(),
    {
        self.total_forwarded
    }

    /// Buffers that egress refused and that were released so far.
    pub fn total_dropped(&self) -> (r: u64)
        ensures
            r == self.spec_dropped(),
    {
        self.total_dropped
    }

    /// Decides on a poll's result: an empty one means poll again; otherwise
    /// every received buffer is submitted, in arrival order.
    pub fn on_received<H>(&self, received: Vec<H>) -> (r: Step<H>)
        requires
            received.len() <= self.spec_max_burst(),
        ensures
            received.len() == 0 <==> r is Idle,
            r matches Step::Submit(v) ==> v@ == received@,
    {
        if received.len() == 0 {
            Step::Idle
        } else {
            Step::Submit(received)
        }
    }

    /// Settles a submitted burst of which egress accepted the first
    /// `accepted` buffers: those now belong to egress and are counted as
    /// forwarded; the rest are counted as dropped and returned, in their
    /// order, each once, to be released to their pool. Counts stop at
    /// `u64::MAX` rather than wrap.
    pub fn settle<H>(&mut self, submitted: Vec<H>, accepted: usize) -> (rejected: Vec<H>)
        requires
            accepted <= submitted.len() <= old(self).spec_max_burst(),
        ensures
            rejected@ == submitted@.skip(accepted as int),
            final(self).spec_max_burst() == old(self).spec_max_burst(),
            final(self).spec_forwarded() == bump(old(self).spec_forwarded(), accepted as int),
            final(self).spec_dropped() == bump(
                old(self).spec_dropped(),
                submitted.len() - accepted,
            ),
    {
        let ghost all = submitted@;
        let mut submitted = submitted;
        let dropped = submitted.len() - accepted;
        let rejected = submitted.split_off(accepted);
        self.total_forwarded = self.total_forwarded.saturating_add(accepted as u64);
        self.total_dropped = self.total_dropped.saturating_add(dropped as u64);
        assert(rejected@ =~= all.skip(accepted as int));
        rejected
    }

    /// Settles a burst of pool buffers of which egress accepted the first
    /// `accepted`, releasing the rest to `pool`, each exactly once. Returns
    /// how many were released. The accepted buffers stay checked out: they
    /// belong to egress now, which returns them on transmit completion.
    pub fn settle_to_pool(
        &mut self,
        pool: &mut SlotPool,
        submitted: Vec<BufHandle>,
        accepted: usize,
    ) -> (released: usize)
        requires
            old(pool).wf(),
            accepted <= submitted.len() <= old(self).spec_max_burst(),
            forall|k: int| 0 <= k < submitted@.len() ==> old(pool).live(#[trigger] submitted@[k]),
            forall|a: int, b: int|
                0 <= a < b < submitted@.len() ==> #[trigger] submitted@[a].slot
                    != #[trigger] submitted@[b].slot,
        ensures
            accepted + released == submitted@.len(),
            final(self).spec_max_burst() == old(self).spec_max_burst(),
            final(self).spec_forwarded() == bump(old(self).spec_forwarded(), accepted as int),
            final(self).spec_dropped() == bump(old(self).spec_dropped(), released as int),
            final(pool).wf(),
            final(pool).spec_layout() == old(pool).spec_layout(),
            final(pool).free_count() == old(pool).free_count() + released,
            forall|k: int|
                accepted <= k < submitted@.len() ==> !final(pool).in_use(
                    #[trigger] submitted@[k].slot as int,
                ),
            forall|k: int| 0 <= k < accepted ==> final(pool).live(#[trigger] submitted@[k]),
            forall|g: BufHandle| #[trigger] final(pool).live(g) ==> old(pool).live(g),
            forall|g: BufHandle|
                (forall|k: int| 0 <= k < submitted@.len() ==> g.slot != #[trigger] submitted@[k].slot)
                    ==> (#[trigger] final(pool).live(g) == old(pool).live(g)),
    {
        let ghost all = submitted@;
        let rejected = self.settle(submitted, accepted);
        let released = rejected.len();
        assert forall|k: int| 0 <= k < rejected@.len() implies old(pool).live(
            #[trigger] rejected@[k],
        ) by {
            assert(rejected@[k] == all[k + accepted]);
        }
        assert forall|a: int, b: int| 0 <= a < b < rejected@.len() implies #[trigger] rejected@[a].slot
            != #[trigger] rejected@[b].slot by {
            assert(rejected@[a] == all[a + accepted]);
            assert(rejected@[b] == all[b + accepted]);
        }
        pool.release_all(rejected);
        assert forall|k: int| accepted <= k < all.len() implies !pool.in_use(
            #[trigger] all[k].slot as int,
        ) by {
            assert(rejected@[k - accepted] == all[k]);
        }
        assert forall|k: int| 0 <= k < accepted implies pool.live(#[trigger] all[k]) by {
            assert forall|j: int| 0 <= j < rejected@.len() implies all[k].slot
                != #[trigger] rejected@[j].slot by {
                assert(rejected@[j] == all[j + accepted]);
            }
        }
        assert forall|g: BufHandle|
            (forall|k: int| 0 <= k < all.len() ==> g.slot != #[trigger] all[k].slot) implies (
        #[trigger] pool.live(g) == old(pool).live(g)) by {
            assert forall|j: int| 0 <= j < rejected@.len() implies g.slot
                != #[trigger] rejected@[j].slot by {
                assert(rejected@[j] == all[j + accepted]);
            }
        }
        released
    }
}

/// Ownership conservation: of a settled burst, the `accepted` buffers that
/// go to egress and the rest that are released make up the burst, in
/// order, each buffer once; and while the counts stay below their ceiling,
/// together they grow by exactly the size of the burst.
pub proof fn law_ownership_conservation<H>(f: Forwarder, submitted: Seq<H>, accepted: int)
    requires
        0 <= accepted <= submitted.len(),
    ensures
        submitted.take(accepted) + submitted.skip(accepted) == submitted,
        accepted + submitted.skip(accepted).len() == submitted.len(),
        f.spec_forwarded() + f.spec_dropped() + submitted.len() <= u64::MAX ==> bump(
            f.spec_forwarded(),
            accepted,
        ) + bump(f.spec_dropped(), submitted.len() - accepted) == f.spec_forwarded()
            + f.spec_dropped() + submitted.len(),
{
    assert(submitted.take(accepted) + submitted.skip(accepted) =~= submitted);
}

/// Order preservation: egress is offered the buffers in arrival order, so
/// those it accepts are the first `accepted` received, in their order, and
/// those released keep their relative order too.
pub proof fn law_order_preserved<H>(received: Seq<H>, accepted: int)
    requires
        0 <= accepted <= received.len(),
    ensures
        forall|i: int| 0 <= i < accepted ==> #[trigger] received.take(accepted)[i] == received[i],
        forall|i: int|
            0 <= i < received.len() - accepted ==> #[trigger] received.skip(accepted)[i]
                == received[accepted + i],
{
}

/// A burst of nothing changes nothing: no buffer is released and neither
/// count moves.
pub proof fn law_zero_burst<H>(f: Forwarder, empty: Seq<H>)
    requires
        empty.len() == 0,
    ensures
        empty.skip(0).len() == 0,
        bump(f.spec_forwarded(), 0) == f.spec_forwarded(),
        bump(f.spec_dropped(), empty.len() - 0) == f.spec_dropped(),
{
}

/// Counter monotonicity: settling a burst never lowers either count.
pub proof fn law_counters_monotone(f: Forwarder, accepted: int, rejected: int)
    requires
        accepted >= 0,
        rejected >= 0,
    ensures
        bump(f.spec_forwarded(), accepted) >= f.spec_forwarded(),
        bump(f.spec_dropped(), rejected) >= f.spec_dropped(),
{
}

} // verus!
