//! A fixed arena of buffer slots with an index-based free list. A buffer
//! handle is a slot index with the slot's generation, which changes at every
//! release, so a handle kept past its release is recognised as stale.

use vstd::prelude::*;
use vstd::set_lib::{lemma_int_range, set_int_range};
use crate::layout::{PoolLayout, BUFFER_HEADER_SIZE, HEADROOM_SIZE};

verus! {

/// A checked-out buffer: its slot and the slot's generation at checkout.
#[derive(Clone, Copy, Debug, PartialEq, Eq, Structural)]
pub struct BufHandle {
    pub slot: u32,
    pub generation: u32,
}

/// Why a release was refused; the pool is then left as it was.
#[derive(Clone, Copy, Debug, PartialEq, Eq, Structural)]
pub enum ReleaseError {
    /// The slot index is not one of the pool's slots.
    UnknownSlot,
    /// The slot is already free: a second release of the same buffer.
    NotCheckedOut,
    /// The slot was released and handed out again since this handle was made.
    StaleHandle,
}

/// The generation a slot takes on release.
pub open spec fn next_generation(g: u32) -> u32 {
    if g == u32::MAX {
        0
    } else {
        (g + 1) as u32
    }
}

/// The pool's slots, each either on the free list or checked out to exactly
/// one live handle.
pub struct SlotPool {
    layout: PoolLayout,
    free: Vec<u32>,
    checked_out: Vec<bool>,
    generation: Vec<u32>,
}

impl SlotPool {
    pub closed spec fn spec_layout(&self) -> PoolLayout {
        self.layout
    }

    pub open spec fn slot_count(&self) -> nat {
        self.spec_layout().slot_count as nat
    }

    /// Number of slots on the free list.
    pub closed spec fn free_count(&self) -> nat {
        self.free@.len()
    }

    /// Whether slot `i` is checked out.
    pub closed spec fn in_use(&self, i: int) -> bool {
        self.checked_out@[i]
    }

    /// The indices of the slots that are checked out.
    pub closed spec fn in_use_slots(&self) -> Set<int> {
        set_int_range(0, self.layout.slot_count as int).filter(|i: int| self.checked_out@[i])
    }

    /// Number of slots checked out.
    pub open spec fn in_use_count(&self) -> nat {
        self.in_use_slots().len()
    }

    /// The current generation of slot `i`.
    pub closed spec fn generation_of(&self, i: int) -> u32 {
        self.generation@[i]
    }

    /// Whether `h` names a checked-out slot in its current generation.
    pub open spec fn live(&self, h: BufHandle) -> bool {
        &&& h.slot < self.slot_count()
        &&& self.in_use(h.slot as int)
        &&& self.generation_of(h.slot as int) == h.generation
    }

    pub closed spec fn wf(&self) -> bool {
        &&& self.layout.wf()
        &&& self.checked_out@.len() == self.layout.slot_count
        &&& self.generation@.len() == self.layout.slot_count
        &&& self.free@.no_duplicates()
        &&& forall|k: int|
            0 <= k < self.free@.len() ==> #[trigger] self.free@[k] < self.layout.slot_count
                && !self.checked_out@[self.free@[k] as int]
        &&& forall|i: int|
            0 <= i < self.layout.slot_count && !#[trigger] self.checked_out@[i]
                ==> self.free@.contains(i as u32)
    }

    /// A pool over `layout` with every slot free.
    pub fn new(layout: PoolLayout) -> (r: SlotPool)
        requires
            layout.wf(),
        ensures
            r.wf(),
            r.spec_layout() == layout,
            r.free_count() == layout.slot_count,
            forall|i: int| 0 <= i < layout.slot_count ==> !r.in_use(i),
    {
        let mut free: Vec<u32> = Vec::new();
        let mut checked_out: Vec<bool> = Vec::new();
        let mut generation: Vec<u32> = Vec::new();
        let mut i: u32 = 0;
        while i < layout.slot_count
            invariant
                i <= layout.slot_count,
                free@ == Seq::new(i as nat, |k: int| k as u32),
                checked_out@ == Seq::new(i as nat, |k: int| false),
                generation@.len() == i,
            decreases layout.slot_count - i,
        {
            free.push(i);
            checked_out.push(false);
            generation.push(0);
            i = i + 1;
            assert(free@ =~= Seq::new(i as nat, |k: int| k as u32));
            assert(checked_out@ =~= Seq::new(i as nat, |k: int| false));
        }
        let r = SlotPool { layout, free, checked_out, generation };
        assert forall|i: int|
            0 <= i < r.layout.slot_count && !#[trigger] r.checked_out@[i] implies r.free@.contains(
            i as u32) by {
            assert(r.free@[i] == i as u32);
        }
        r
    }

    /// The pool's geometry.
    pub fn layout(&self) -> (r: PoolLayout)
        ensures
            r == self.spec_layout(),
    {
        PoolLayout {
            slot_count: self.layout.slot_count,
            stride: self.layout.stride,
            alignment: self.layout.alignment,
            region_size: self.layout.region_size,
        }
    }

    /// Number of free slots.
    pub fn available(&self) -> (r: usize)
        ensures
            r == self.free_count(),
    {
        self.free.len()
    }

    /// Checks a free slot out; `None` when every slot is in use. No other
    /// slot changes hands.
    pub fn acquire(&mut self) -> (r: Option<BufHandle>)
        requires
            old(self).wf(),
        ensures
            final(self).wf(),
            final(self).spec_layout() == old(self).spec_layout(),
            old(self).free_count() == 0 <==> r is None,
            r is None ==> *final(self) == *old(self),
            r matches Some(h) ==> {
                &&& final(self).live(h)
                &&& !old(self).in_use(h.slot as int)
                &&& final(self).free_count() == old(self).free_count() - 1
                &&& forall|g: BufHandle|
                    g.slot != h.slot ==> (#[trigger] final(self).live(g) == old(self).live(g))
                &&& forall|i: int|
                    0 <= i < final(self).slot_count() && i != h.slot ==> #[trigger] final(self).in_use(i) == old(self).in_use(i)
            },
    {
        if self.free.len() == 0 {
            return None;
        }
        match self.free.pop() {
            None => None,
            Some(slot) => {
                proof {
                    assert(old(self).free@[old(self).free@.len() - 1] == slot);
                }
                self.checked_out.set(slot as usize, true);
                let g = self.generation[slot as usize];
                let h = BufHandle { slot, generation: g };
                proof {
                    let f = self.free@;
                    let of = old(self).free@;
                    assert(f =~= of.drop_last());
                    assert forall|k: int| 0 <= k < f.len() implies #[trigger] f[k]
                        < self.layout.slot_count && !self.checked_out@[f[k] as int] by {
                        assert(f[k] == of[k]);
                        assert(of[k] != of[of.len() - 1]);
                    }
                    assert forall|i: int|
                        0 <= i < self.layout.slot_count && !#[trigger] self.checked_out@[i]
                            implies f.contains(i as u32) by {
                        assert(i != slot);
                        assert(of.contains(i as u32));
                        let k = choose|k: int| 0 <= k < of.len() && of[k] == i as u32;
                        assert(k != of.len() - 1);
                        assert(f[k] == i as u32);
                    }
                }
                Some(h)
            },
        }
    }

    /// Returns the buffer of `h` to the free list. Refused, with the pool
    /// left as it was, unless `h` is live: a slot outside the pool, a slot
    /// already free, or an older generation of the slot.
    pub fn release(&mut self, h: BufHandle) -> (r: Result<(), ReleaseError>)
        requires
            old(self).wf(),
        ensures
            final(self).wf(),
            final(self).spec_layout() == old(self).spec_layout(),
            r is Ok <==> old(self).live(h),
            r is Err ==> *final(self) == *old(self),
            h.slot >= old(self).slot_count() ==> r == Err::<(), ReleaseError>(
                ReleaseError::UnknownSlot,
            ),
            h.slot < old(self).slot_count() && !old(self).in_use(h.slot as int) ==> r == Err::<
                (),
                ReleaseError,
            >(ReleaseError::NotCheckedOut),
            h.slot < old(self).slot_count() && old(self).in_use(h.slot as int) && !old(self).live(
                h,
            ) ==> r == Err::<(), ReleaseError>(ReleaseError::StaleHandle),
            r is Ok ==> {
                &&& !final(self).in_use(h.slot as int)
                &&& final(self).generation_of(h.slot as int) == next_generation(h.generation)
                &&& final(self).free_count() == old(self).free_count() + 1
                &&& forall|g: BufHandle| #[trigger] final(self).live(g) ==> old(self).live(g)
                &&& forall|g: BufHandle|
                    g.slot != h.slot ==> (#[trigger] final(self).live(g) == old(self).live(g))
                &&& forall|i: int|
                    0 <= i < final(self).slot_count() && i != h.slot ==> #[trigger] final(self).in_use(i) == old(self).in_use(i)
            },
    {
        if h.slot >= self.layout.slot_count {
            return Err(ReleaseError::UnknownSlot);
        }
        let i = h.slot as usize;
        if !self.checked_out[i] {
            return Err(ReleaseError::NotCheckedOut);
        }
        let g = self.generation[i];
        if g != h.generation {
            return Err(ReleaseError::StaleHandle);
        }
        let next = if g == u32::MAX {
            0
        } else {
            g + 1
        };
        self.checked_out.set(i, false);
        self.generation.set(i, next);
        self.free.push(h.slot);
        proof {
            let f = self.free@;
            let of = old(self).free@;
            assert(f =~= of.push(h.slot));
            assert(!of.contains(h.slot));
            assert forall|a: int, b: int| 0 <= a < b < f.len() implies f[a] != f[b] by {
                if b == f.len() - 1 {
                    assert(of[a] != h.slot);
                }
            }
            assert forall|k: int| 0 <= k < f.len() implies #[trigger] f[k]
                < self.layout.slot_count && !self.checked_out@[f[k] as int] by {
                if k < of.len() {
                    assert(f[k] == of[k]);
                }
            }
            assert forall|j: int|
                0 <= j < self.layout.slot_count && !#[trigger] self.checked_out@[j]
                    implies f.contains(j as u32) by {
                if j == h.slot {
                    assert(f[f.len() - 1] == j as u32);
                } else {
                    assert(of.contains(j as u32));
                    let k = choose|k: int| 0 <= k < of.len() && of[k] == j as u32;
                    assert(f[k] == j as u32);
                }
            }
        }
        Ok(())
    }

    /// Offset from the pool's aligned base to where the payload of `h`'s
    /// buffer starts, behind its header and headroom; `None` for a handle
    /// that is not live, so a buffer is never reached after its release.
    pub fn payload_offset(&self, h: BufHandle) -> (r: Option<usize>)
        requires
            self.wf(),
        ensures
            !self.live(h) ==> r is None,
            self.live(h) ==> r == Some(
                (h.slot * self.spec_layout().stride + BUFFER_HEADER_SIZE + HEADROOM_SIZE) as usize,
            ),
    {
        if h.slot >= self.layout.slot_count {
            return None;
        }
        let i = h.slot as usize;
        if !self.checked_out[i] || self.generation[i] != h.generation {
            return None;
        }
        let ghost n = self.layout.slot_count as int;
        let ghost st = self.layout.stride as int;
        let ghost k = h.slot as int;
        assert(k * st + st <= n * st) by (nonlinear_arith)
            requires
                0 <= k < n,
                st >= 0,
        ;
        assert(0 <= k * st) by (nonlinear_arith)
            requires
                0 <= k,
                st >= 0,
        ;
        Some((h.slot as usize) * self.layout.stride + BUFFER_HEADER_SIZE + HEADROOM_SIZE)
    }

    /// Returns every buffer of `bufs` to the free list, each exactly once.
    /// The buffers must be live and hold distinct slots; every other
    /// handle keeps its state.
    pub fn release_all(&mut self, bufs: Vec<BufHandle>)
        requires
            old(self).wf(),
            forall|k: int| 0 <= k < bufs@.len() ==> old(self).live(#[trigger] bufs@[k]),
            forall|a: int, b: int|
                0 <= a < b < bufs@.len() ==> #[trigger] bufs@[a].slot != #[trigger] bufs@[b].slot,
        ensures
            final(self).wf(),
            final(self).spec_layout() == old(self).spec_layout(),
            final(self).free_count() == old(self).free_count() + bufs@.len(),
            forall|k: int|
                0 <= k < bufs@.len() ==> !final(self).in_use(#[trigger] bufs@[k].slot as int),
            forall|g: BufHandle| #[trigger] final(self).live(g) ==> old(self).live(g),
            forall|g: BufHandle|
                (forall|k: int| 0 <= k < bufs@.len() ==> g.slot != #[trigger] bufs@[k].slot)
                    ==> (#[trigger] final(self).live(g) == old(self).live(g)),
    {
        let mut i: usize = 0;
        while i < bufs.len()
            invariant
                i <= bufs@.len(),
                forall|k: int| 0 <= k < bufs@.len() ==> old(self).live(#[trigger] bufs@[k]),
                self.wf(),
                self.spec_layout() == old(self).spec_layout(),
                self.free_count() == old(self).free_count() + i,
                forall|a: int, b: int|
                    0 <= a < b < bufs@.len() ==> #[trigger] bufs@[a].slot
                        != #[trigger] bufs@[b].slot,
                forall|k: int| 0 <= k < i ==> !self.in_use(#[trigger] bufs@[k].slot as int),
                forall|k: int| i <= k < bufs@.len() ==> self.live(#[trigger] bufs@[k]),
                forall|g: BufHandle| #[trigger] self.live(g) ==> old(self).live(g),
                forall|g: BufHandle|
                    (forall|k: int| 0 <= k < i ==> g.slot != #[trigger] bufs@[k].slot) ==> (
                    #[trigger] self.live(g) == old(self).live(g)),
            decreases bufs@.len() - i,
        {
            let h = bufs[i];
            let ghost before = *self;
            let r = self.release(h);
            assert(r is Ok);
            assert forall|k: int| 0 <= k < i + 1 implies !self.in_use(
                #[trigger] bufs@[k].slot as int,
            ) by {
                if k < i {
                    assert(bufs@[k].slot != h.slot);
                    assert(old(self).live(bufs@[k]));
                }
            }
            assert forall|k: int| i + 1 <= k < bufs@.len() implies self.live(
                #[trigger] bufs@[k],
            ) by {
                assert(bufs@[k].slot != h.slot);
                assert(before.live(bufs@[k]));
            }
            assert forall|g: BufHandle|
                (forall|k: int| 0 <= k < i + 1 ==> g.slot != #[trigger] bufs@[k].slot) implies (
            #[trigger] self.live(g) == old(self).live(g)) by {
                assert(g.slot != bufs@[i as int].slot);
                assert forall|k: int| 0 <= k < i implies g.slot != #[trigger] bufs@[k].slot by {}
                assert(before.live(g) == old(self).live(g));
            }
            i = i + 1;
        }
    }
}

/// Slot accounting: every slot is either on the free list or checked out,
/// never both, so the free and checked-out counts add up to the slot count.
pub proof fn law_slot_accounting(pool: SlotPool)
    requires
        pool.wf(),
    ensures
        pool.free_count() + pool.in_use_count() == pool.slot_count(),
{
    let n = pool.layout.slot_count as int;
    let range = set_int_range(0, n);
    lemma_int_range(0, n);
    let used = range.filter(|i: int| pool.checked_out@[i]);
    let idle = range.filter(|i: int| !pool.checked_out@[i]);
    assert(used == pool.in_use_slots());
    assert(idle + used =~= range);
    assert(idle.disjoint(used));
    vstd::set_lib::lemma_set_disjoint_lens(idle, used);
    let f = pool.free@;
    let fi = f.map_values(|x: u32| x as int);
    assert forall|a: int, b: int| 0 <= a < b < fi.len() implies fi[a] != fi[b] by {
        assert(f[a] != f[b]);
    }
    assert(fi.no_duplicates());
    fi.unique_seq_to_set();
    assert forall|i: int| idle.contains(i) implies fi.to_set().contains(i) by {
        assert(f.contains(i as u32));
        let k = choose|k: int| 0 <= k < f.len() && f[k] == i as u32;
        assert(fi[k] == i);
    }
    assert forall|i: int| fi.to_set().contains(i) implies idle.contains(i) by {
        let k = choose|k: int| 0 <= k < fi.len() && fi[k] == i;
        assert(f[k] < pool.layout.slot_count && !pool.checked_out@[f[k] as int]);
    }
    assert(fi.to_set() =~= idle);
}

/// Each slot has at most one owner: two live handles on one slot are the
/// same handle, and a free slot has no live handle at all.
pub proof fn law_single_owner(pool: SlotPool, h1: BufHandle, h2: BufHandle)
    requires
        pool.wf(),
    ensures
        pool.live(h1) && pool.live(h2) && h1.slot == h2.slot ==> h1 == h2,
        !pool.in_use(h1.slot as int) ==> !pool.live(h1),
{
}

} // verus!
