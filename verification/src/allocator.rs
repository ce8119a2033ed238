//! The allocator facade: slot table plus free list, with generation-based
//! validity checking.

use crate::error::Error;
use crate::free_list::FreeList;
use crate::handle::Handle;
use crate::slot::{lemma_occupied_count_le_len, lemma_occupied_count_push, lemma_occupied_count_update, occupied_count, Slot, SlotState};
use vstd::pervasive::unreached;
use vstd::prelude::*;

verus! {

/// A generational handle allocator. It owns every stored object, and
/// [`Handle`]s are the only way external code reaches them.
///
/// Positions are 1-based: a handle at position `p` names slot `p - 1` of
/// the table, and position `0` is the null handle. A handle is valid
/// exactly when its position lies within the table, the slot there is
/// occupied, and the slot's generation equals the handle's generation.
pub struct Allocator<T> {
    /// The backing store; its length is the high-water mark of positions
    /// ever brought into use.
    pub slots: Vec<Slot<T>>,
    /// Free positions available for reuse, and the capacity bound.
    pub free: FreeList,
    /// Number of occupied slots, kept so `len` is constant time.
    pub live: usize,
}

impl<T> Allocator<T> {
    /// Number of slot positions ever brought into use.
    pub open spec fn table_len(self) -> nat {
        self.slots@.len()
    }

    /// Whether 1-based position `p` lies within the table.
    pub open spec fn in_table(self, p: int) -> bool {
        1 <= p <= self.table_len()
    }

    /// The slot at 1-based position `p`.
    pub open spec fn slot_at(self, p: int) -> Slot<T>
        recommends
            self.in_table(p),
    {
        self.slots@[p - 1]
    }

    /// A handle is valid exactly when its position is within the table, the
    /// slot there is occupied, and the generations agree. The null handle
    /// (position 0) is never valid.
    pub open spec fn valid_handle(self, h: Handle) -> bool {
        &&& self.in_table(h.position as int)
        &&& self.slot_at(h.position as int).is_occupied()
        &&& self.slot_at(h.position as int).generation == h.generation
    }

    /// Number of live objects.
    pub open spec fn live_count(self) -> nat {
        occupied_count(self.slots@)
    }

    /// The configured maximum number of positions, `None` when unbounded.
    pub open spec fn max_capacity(self) -> Option<usize> {
        self.free.max_positions
    }

    /// The free positions, oldest first.
    pub open spec fn free_positions(self) -> Seq<usize> {
        self.free.positions@
    }

    /// The shape `get_mut` leaves behind relative to the state `prev` it
    /// was called in: only the object in `h`'s slot was replaced, while the
    /// table's length, every other slot, the slot's occupancy and
    /// generation, the free list and the cached live count are untouched.
    pub open spec fn value_updated(self, prev: Allocator<T>, h: Handle) -> bool {
        &&& prev.in_table(h.position as int)
        &&& self.slots@ == prev.slots@.update(h.position - 1, self.slot_at(h.position as int))
        &&& self.slot_at(h.position as int).is_occupied()
        &&& self.slot_at(h.position as int).generation == h.generation
        &&& self.free.positions@ == prev.free.positions@
        &&& self.free.max_positions == prev.free.max_positions
        &&& self.live == prev.live
    }

    /// Well-formedness: the invariants every operation preserves.
    ///
    /// - Every entry of the free list is a position within the table whose
    ///   slot is free and whose generation is not yet exhausted.
    /// - The free list holds no position twice.
    /// - Every free slot whose generation is not exhausted is on the free
    ///   list; a slot whose generation counter has reached its maximum is
    ///   retired instead of being reused, so the generation of a live slot
    ///   can always be bumped once more without wrapping.
    /// - Occupied slots have room for one more generation bump.
    /// - The cached `live` count equals the number of occupied slots.
    /// - A configured maximum bounds the table's length.
    pub open spec fn wf(self) -> bool {
        &&& forall|i: int|
            0 <= i < self.free_positions().len() ==> {
                &&& self.in_table(#[trigger] self.free_positions()[i] as int)
                &&& !self.slot_at(self.free_positions()[i] as int).is_occupied()
                &&& self.slot_at(self.free_positions()[i] as int).generation < u32::MAX
            }
        &&& forall|i: int, j: int|
            0 <= i < self.free_positions().len() && 0 <= j < self.free_positions().len() && i != j
                ==> #[trigger] self.free_positions()[i] != #[trigger] self.free_positions()[j]
        &&& forall|p: usize|
            self.in_table(p as int) && !(#[trigger] self.slot_at(p as int)).is_occupied()
                && self.slot_at(p as int).generation < u32::MAX ==> self.free_positions().contains(
                p,
            )
        &&& forall|p: int|
            self.in_table(p) && (#[trigger] self.slot_at(p)).is_occupied() ==> self.slot_at(
                p,
            ).generation < u32::MAX
        &&& self.live == self.live_count()
        &&& match self.max_capacity() {
            Option::None => true,
            Option::Some(m) => self.table_len() <= m,
        }
    }

    /// A fresh, empty allocator. `max_capacity` of `None` lets the table
    /// grow without bound; `Some(n)` makes `create` fail once `n` positions
    /// are in use and none is free.
    pub fn new(max_capacity: Option<usize>) -> (a: Allocator<T>)
        ensures
            a.wf(),
            a.table_len() == 0,
            a.live_count() == 0,
            a.free_positions().len() == 0,
            a.max_capacity() == max_capacity,
    {
        Allocator { slots: Vec::new(), free: FreeList::new(max_capacity), live: 0 }
    }

    /// Whether `create` would succeed: some position is free to reuse, or
    /// the capacity bound still allows a brand-new one.
    pub open spec fn can_create(self) -> bool {
        self.free_positions().len() > 0 || self.free.can_append_spec(self.table_len() as int)
    }

    /// Number of live objects: successful creations minus successful
    /// removals.
    pub fn len(&self) -> (n: usize)
        requires
            self.wf(),
        ensures
            n == self.live_count(),
    {
        self.live
    }

    /// The configured maximum number of positions, or `None` when the table
    /// may grow without bound.
    pub fn capacity(&self) -> (c: Option<usize>)
        ensures
            c == self.max_capacity(),
    {
        self.free.max_positions
    }

    /// Read-only access to the object `handle` refers to.
    ///
    /// Succeeds exactly when the handle is valid: its position lies within
    /// the table, the slot there is occupied, and the slot's generation
    /// equals the handle's. Otherwise — a never-assigned or null handle, a
    /// position beyond the table, or a generation left behind by a removal
    /// — the result is `StaleOrInvalidHandle`.
    pub fn get(&self, handle: &Handle) -> (r: Result<&T, Error>)
        ensures
            r is Ok <==> self.valid_handle(*handle),
            match r {
                Result::Ok(v) => *v == self.slot_at(handle.position as int).value(),
                Result::Err(e) => e == Error::StaleOrInvalidHandle,
            },
    {
        if handle.position == 0 || handle.position > self.slots.len() {
            return Err(Error::StaleOrInvalidHandle);
        }
        let idx = handle.position - 1;
        let slot = &self.slots[idx];
        match &slot.state {
            SlotState::Occupied(v) => {
                if slot.generation == handle.generation {
                    Ok(v)
                } else {
                    Err(Error::StaleOrInvalidHandle)
                }
            },
            SlotState::Free => Err(Error::StaleOrInvalidHandle),
        }
    }

    /// Exclusive access to the object `handle` refers to, under the same
    /// validity condition as [`Allocator::get`]. The caller may overwrite
    /// the object through the returned reference; the slot's position,
    /// occupancy and generation — and with them every handle — are
    /// unaffected.
    pub fn get_mut(&mut self, handle: &Handle) -> (r: Result<&mut T, Error>)
        requires
            old(self).wf(),
        ensures
            final(self).wf(),
            r is Ok <==> old(self).valid_handle(*handle),
            final(self).table_len() == old(self).table_len(),
            forall|p: int|
                old(self).in_table(p) ==> final(self).slot_at(p).generation >= (#[trigger] old(
                    self,
                ).slot_at(p)).generation,
            match r {
                Result::Ok(v) => {
                    &&& *v == old(self).slot_at(handle.position as int).value()
                    &&& final(self).slots@ == old(self).slots@.update(
                        handle.position - 1,
                        Slot {
                            generation: handle.generation,
                            state: SlotState::Occupied(*final(v)),
                        },
                    )
                    &&& final(self).value_updated(*old(self), *handle)
                    &&& final(self).free_positions() == old(self).free_positions()
                    &&& final(self).max_capacity() == old(self).max_capacity()
                    &&& final(self).live_count() == old(self).live_count()
                    &&& final(self).valid_handle(*handle)
                    &&& forall|h2: Handle|
                        final(self).valid_handle(h2) <==> old(self).valid_handle(h2)
                },
                Result::Err(e) => e == Error::StaleOrInvalidHandle && *final(self) == *old(self),
            },
    {
        if handle.position == 0 || handle.position > self.slots.len() {
            return Err(Error::StaleOrInvalidHandle);
        }
        let idx = handle.position - 1;
        let g = self.slots[idx].generation;
        let occupied = match &self.slots[idx].state {
            SlotState::Occupied(_) => true,
            SlotState::Free => false,
        };
        if !occupied || g != handle.generation {
            return Err(Error::StaleOrInvalidHandle);
        }
        proof {
            Self::lemma_value_updated_wf(*self, *handle);
        }
        match &mut self.slots[idx].state {
            SlotState::Occupied(v) => Ok(v),
            SlotState::Free => unreached(),
        }
    }

    /// Replacing only the object in a valid handle's slot preserves
    /// well-formedness, the live count, and the validity of every handle.
    proof fn lemma_value_updated_wf(prev: Allocator<T>, h: Handle)
        requires
            prev.wf(),
            prev.valid_handle(h),
        ensures
            forall|next: Allocator<T>|
                next.value_updated(prev, h) ==> (#[trigger] next.wf()) && next.live_count()
                    == prev.live_count() && (forall|h2: Handle|
                    next.valid_handle(h2) <==> prev.valid_handle(h2)),
    {
        assert forall|next: Allocator<T>| next.value_updated(prev, h) implies (#[trigger] next.wf())
            && next.live_count() == prev.live_count() && (forall|h2: Handle|
            next.valid_handle(h2) <==> prev.valid_handle(h2)) by {
            let ns = next.slot_at(h.position as int);
            lemma_occupied_count_update(prev.slots@, h.position - 1, ns);
            let fps = next.free_positions();
            assert forall|i: int| 0 <= i < fps.len() implies {
                &&& next.in_table(#[trigger] fps[i] as int)
                &&& !next.slot_at(fps[i] as int).is_occupied()
                &&& next.slot_at(fps[i] as int).generation < u32::MAX
            } by {
                assert(fps[i] == prev.free_positions()[i]);
                assert(!prev.slot_at(fps[i] as int).is_occupied());
                assert(fps[i] != h.position);
                assert(next.slot_at(fps[i] as int) == prev.slot_at(fps[i] as int));
            }
            assert forall|i: int, j: int|
                0 <= i < fps.len() && 0 <= j < fps.len() && i != j implies #[trigger] fps[i]
                    != #[trigger] fps[j] by {
                assert(prev.free_positions()[i] != prev.free_positions()[j]);
            }
            assert forall|q: usize|
                next.in_table(q as int) && !(#[trigger] next.slot_at(q as int)).is_occupied()
                    && next.slot_at(q as int).generation < u32::MAX implies fps.contains(q) by {
                assert(q != h.position);
                assert(next.slot_at(q as int) == prev.slot_at(q as int));
                assert(prev.free_positions().contains(q));
            }
            assert forall|p: int|
                next.in_table(p) && (#[trigger] next.slot_at(p)).is_occupied() implies next.slot_at(
                p,
            ).generation < u32::MAX by {
                if p != h.position {
                    assert(next.slot_at(p) == prev.slot_at(p));
                } else {
                    assert(prev.slot_at(p).is_occupied());
                }
            }
            assert forall|h2: Handle| next.valid_handle(h2) <==> prev.valid_handle(h2) by {
                if h2.position != h.position && prev.in_table(h2.position as int) {
                    assert(next.slot_at(h2.position as int) == prev.slot_at(h2.position as int));
                }
            }
        }
    }

    /// Non-failing validity probe: true exactly when `get` would succeed,
    /// without exposing the object.
    pub fn contains(&self, handle: &Handle) -> (b: bool)
        ensures
            b == self.valid_handle(*handle),
    {
        if handle.position == 0 || handle.position > self.slots.len() {
            return false;
        }
        let idx = handle.position - 1;
        let slot = &self.slots[idx];
        match &slot.state {
            SlotState::Occupied(_) => slot.generation == handle.generation,
            SlotState::Free => false,
        }
    }

    /// Removes the object `handle` refers to, dropping it.
    ///
    /// Succeeds exactly when the handle is currently valid. On success the
    /// slot becomes free, its generation is bumped — the single point where
    /// a generation ever changes, so every handle sharing the position that
    /// was issued before this call is invalid from now on — and the
    /// position returns to the free list for reuse. A stale, forged or
    /// null handle (including a second remove of the same handle) changes
    /// nothing and yields `StaleOrInvalidHandle`.
    ///
    /// The one exception to reuse: a slot whose bumped generation counter
    /// has reached its maximum is retired rather than listed, so a
    /// generation never wraps back onto an outstanding handle.
    pub fn remove(&mut self, handle: &Handle) -> (r: Result<(), Error>)
        requires
            old(self).wf(),
        ensures
            final(self).wf(),
            r is Ok <==> old(self).valid_handle(*handle),
            final(self).table_len() == old(self).table_len(),
            forall|p: int|
                old(self).in_table(p) ==> final(self).slot_at(p).generation >= (#[trigger] old(
                    self,
                ).slot_at(p)).generation,
            r is Err ==> *final(self) == *old(self) && r == Result::<(), Error>::Err(
                Error::StaleOrInvalidHandle,
            ),
            r is Ok ==> {
                &&& !final(self).valid_handle(*handle)
                &&& final(self).live_count() == old(self).live_count() - 1
                &&& final(self).table_len() == old(self).table_len()
                &&& final(self).max_capacity() == old(self).max_capacity()
                &&& !final(self).slot_at(handle.position as int).is_occupied()
                &&& final(self).slot_at(handle.position as int).generation == handle.generation
                    + 1
                &&& forall|p: int|
                    old(self).in_table(p) && p != handle.position ==> final(self).slot_at(p)
                        == old(self).slot_at(p)
                &&& forall|h2: Handle|
                    h2.position == handle.position ==> !final(self).valid_handle(h2)
                &&& forall|h2: Handle|
                    h2.position != handle.position ==> (final(self).valid_handle(h2) <==> old(
                        self,
                    ).valid_handle(h2))
            },
    {
        if handle.position == 0 || handle.position > self.slots.len() {
            return Err(Error::StaleOrInvalidHandle);
        }
        let idx = handle.position - 1;
        let g = self.slots[idx].generation;
        let occupied = match &self.slots[idx].state {
            SlotState::Occupied(_) => true,
            SlotState::Free => false,
        };
        if !occupied || g != handle.generation {
            return Err(Error::StaleOrInvalidHandle);
        }
        proof {
            assert(old(self).slot_at(handle.position as int).is_occupied());
            assert(old(self).slot_at(handle.position as int).generation < u32::MAX);
        }
        let new_slot = Slot { generation: g + 1, state: SlotState::Free };
        proof {
            lemma_occupied_count_update(self.slots@, idx as int, new_slot);
        }
        self.slots[idx] = new_slot;
        self.live = self.live - 1;
        if g + 1 < u32::MAX {
            proof {
                let fp = self.free_positions();
                assert forall|i: int| 0 <= i < fp.len() implies fp[i] != handle.position by {
                    assert(!old(self).slot_at(fp[i] as int).is_occupied());
                }
            }
            self.free.push(handle.position);
            proof {
                self.lemma_remove_listed_wf(*old(self), *handle);
            }
        } else {
            proof {
                self.lemma_remove_retired_wf(*old(self), *handle);
            }
        }
        Ok(())
    }

    /// Law: staleness is permanent. A successful `remove` leaves the
    /// handle's slot with a strictly greater generation, and `create`,
    /// `get_mut` and `remove` never decrease a slot's generation (their
    /// contracts say so), so in every later state the slot's generation
    /// still exceeds the handle's — and such a handle is invalid: `get`,
    /// `get_mut` and a second `remove` all fail on it, no matter how many
    /// creations happened in between.
    pub proof fn lemma_outlived_handle_invalid(self, h: Handle)
        requires
            self.in_table(h.position as int) ==> self.slot_at(h.position as int).generation
                > h.generation,
        ensures
            !self.valid_handle(h),
    {
    }

    /// Law: reusing a position never revives an old handle. If the slot at
    /// `old_h`'s position has outlived `old_h` (its generation is strictly
    /// greater, as `remove` leaves it and every operation keeps it), then
    /// any handle `new_h` that is currently valid for the same position —
    /// such as one a later `create` issued when it reused the position —
    /// carries a strictly greater generation than `old_h`, differs from
    /// `old_h`, and `old_h` itself remains invalid.
    pub proof fn lemma_reuse_does_not_revive(self, old_h: Handle, new_h: Handle)
        requires
            self.valid_handle(new_h),
            new_h.position == old_h.position,
            self.slot_at(old_h.position as int).generation > old_h.generation,
        ensures
            new_h.generation > old_h.generation,
            new_h != old_h,
            !self.valid_handle(old_h),
    {
    }

    /// Freeing a valid handle's slot and listing its position preserves
    /// well-formedness and the validity of every handle at another
    /// position.
    proof fn lemma_remove_listed_wf(self, prev: Allocator<T>, h: Handle)
        requires
            prev.wf(),
            prev.valid_handle(h),
            h.generation + 1 < u32::MAX,
            self.slots@.len() == prev.slots@.len(),
            !self.slot_at(h.position as int).is_occupied(),
            self.slot_at(h.position as int).generation == h.generation + 1,
            forall|p: int|
                prev.in_table(p) && p != h.position ==> self.slot_at(p) == prev.slot_at(p),
            self.free.positions@ == prev.free.positions@.push(h.position),
            self.free.max_positions == prev.free.max_positions,
            self.live == self.live_count(),
        ensures
            self.wf(),
            forall|h2: Handle| h2.position == h.position ==> !self.valid_handle(h2),
            forall|h2: Handle|
                h2.position != h.position ==> (self.valid_handle(h2) <==> prev.valid_handle(h2)),
    {
        let pfp = prev.free_positions();
        let nfp = self.free_positions();
        assert forall|i: int| 0 <= i < pfp.len() implies pfp[i] != h.position by {
            assert(!prev.slot_at(pfp[i] as int).is_occupied());
        }
        assert forall|i: int| 0 <= i < nfp.len() implies {
            &&& self.in_table(#[trigger] nfp[i] as int)
            &&& !self.slot_at(nfp[i] as int).is_occupied()
            &&& self.slot_at(nfp[i] as int).generation < u32::MAX
        } by {
            if i < pfp.len() {
                assert(nfp[i] == pfp[i]);
                assert(pfp[i] != h.position);
            } else {
                assert(nfp[i] == h.position);
            }
        }
        assert forall|q: usize|
            self.in_table(q as int) && !(#[trigger] self.slot_at(q as int)).is_occupied()
                && self.slot_at(q as int).generation < u32::MAX implies nfp.contains(q) by {
            if q == h.position {
                assert(nfp[nfp.len() - 1] == q);
            } else {
                assert(prev.slot_at(q as int) == self.slot_at(q as int));
                assert(pfp.contains(q));
                let j = choose|j: int| 0 <= j < pfp.len() && pfp[j] == q;
                assert(nfp[j] == q);
            }
        }
    }

    /// Freeing a valid handle's slot whose bumped generation is exhausted
    /// retires the position: well-formedness is preserved without listing
    /// it, and the validity of every handle at another position is kept.
    proof fn lemma_remove_retired_wf(self, prev: Allocator<T>, h: Handle)
        requires
            prev.wf(),
            prev.valid_handle(h),
            h.generation + 1 == u32::MAX,
            self.slots@.len() == prev.slots@.len(),
            !self.slot_at(h.position as int).is_occupied(),
            self.slot_at(h.position as int).generation == h.generation + 1,
            forall|p: int|
                prev.in_table(p) && p != h.position ==> self.slot_at(p) == prev.slot_at(p),
            self.free.positions@ == prev.free.positions@,
            self.free.max_positions == prev.free.max_positions,
            self.live == self.live_count(),
        ensures
            self.wf(),
            forall|h2: Handle| h2.position == h.position ==> !self.valid_handle(h2),
            forall|h2: Handle|
                h2.position != h.position ==> (self.valid_handle(h2) <==> prev.valid_handle(h2)),
    {
        let pfp = prev.free_positions();
        let nfp = self.free_positions();
        assert forall|i: int| 0 <= i < pfp.len() implies pfp[i] != h.position by {
            assert(!prev.slot_at(pfp[i] as int).is_occupied());
        }
        assert forall|i: int| 0 <= i < nfp.len() implies {
            &&& self.in_table(#[trigger] nfp[i] as int)
            &&& !self.slot_at(nfp[i] as int).is_occupied()
            &&& self.slot_at(nfp[i] as int).generation < u32::MAX
        } by {
            assert(nfp[i] == pfp[i]);
            assert(pfp[i] != h.position);
        }
        assert forall|q: usize|
            self.in_table(q as int) && !(#[trigger] self.slot_at(q as int)).is_occupied()
                && self.slot_at(q as int).generation < u32::MAX implies nfp.contains(q) by {
            assert(q != h.position);
            assert(prev.slot_at(q as int) == self.slot_at(q as int));
            assert(pfp.contains(q));
        }
    }

    /// Reusing the most recently freed position preserves well-formedness
    /// and the validity of every handle at another position.
    proof fn lemma_create_reuse_wf(self, prev: Allocator<T>, h: Handle)
        requires
            prev.wf(),
            prev.free_positions().len() > 0,
            h.position == prev.free_positions().last(),
            h.generation == prev.slot_at(h.position as int).generation,
            self.slots@.len() == prev.slots@.len(),
            self.slot_at(h.position as int).is_occupied(),
            self.slot_at(h.position as int).generation == h.generation,
            forall|p: int|
                prev.in_table(p) && p != h.position ==> self.slot_at(p) == prev.slot_at(p),
            self.free.positions@ == prev.free.positions@.drop_last(),
            self.free.max_positions == prev.free.max_positions,
            self.live == self.live_count(),
        ensures
            self.wf(),
            forall|h2: Handle|
                h2.position != h.position ==> (self.valid_handle(h2) <==> prev.valid_handle(h2)),
    {
        let pfp = prev.free_positions();
        let nfp = self.free_positions();
        assert(prev.in_table(h.position as int) && !prev.slot_at(h.position as int).is_occupied()
            && prev.slot_at(h.position as int).generation < u32::MAX) by {
            assert(pfp[pfp.len() - 1] == h.position);
        }
        assert forall|i: int| 0 <= i < nfp.len() implies {
            &&& self.in_table(#[trigger] nfp[i] as int)
            &&& !self.slot_at(nfp[i] as int).is_occupied()
            &&& self.slot_at(nfp[i] as int).generation < u32::MAX
        } by {
            assert(nfp[i] == pfp[i]);
            assert(pfp[i] != pfp[pfp.len() - 1]);
        }
        assert forall|q: usize|
            self.in_table(q as int) && !(#[trigger] self.slot_at(q as int)).is_occupied()
                && self.slot_at(q as int).generation < u32::MAX implies nfp.contains(q) by {
            assert(q != h.position);
            assert(prev.slot_at(q as int) == self.slot_at(q as int));
            assert(pfp.contains(q));
            let j = choose|j: int| 0 <= j < pfp.len() && pfp[j] == q;
            assert(pfp[j] != pfp[pfp.len() - 1]);
            assert(j < pfp.len() - 1);
            assert(nfp[j] == q);
        }
    }

    /// Appending a brand-new slot at the next position preserves
    /// well-formedness and the validity of every handle at another
    /// position.
    proof fn lemma_create_append_wf(self, prev: Allocator<T>, h: Handle)
        requires
            prev.wf(),
            prev.free.can_append_spec(prev.table_len() as int),
            prev.free_positions().len() == 0,
            h.position == prev.slots@.len() + 1,
            h.generation == 0,
            self.slots@.len() == prev.slots@.len() + 1,
            self.slot_at(h.position as int).is_occupied(),
            self.slot_at(h.position as int).generation == 0,
            forall|p: int| prev.in_table(p) ==> self.slot_at(p) == prev.slot_at(p),
            self.free.positions@ == prev.free.positions@,
            self.free.max_positions == prev.free.max_positions,
            self.live == self.live_count(),
        ensures
            self.wf(),
            forall|h2: Handle|
                h2.position != h.position ==> (self.valid_handle(h2) <==> prev.valid_handle(h2)),
    {
        assert forall|q: usize|
            self.in_table(q as int) && !(#[trigger] self.slot_at(q as int)).is_occupied()
                && self.slot_at(q as int).generation < u32::MAX implies self.free_positions()
                .contains(q) by {
            assert(q != h.position);
            assert(prev.in_table(q as int));
            assert(prev.slot_at(q as int) == self.slot_at(q as int));
            assert(prev.free_positions().contains(q));
        }
        assert forall|h2: Handle|
            h2.position != h.position implies (self.valid_handle(h2) <==> prev.valid_handle(
            h2,
        )) by {
            if prev.in_table(h2.position as int) {
                assert(self.slot_at(h2.position as int) == prev.slot_at(h2.position as int));
            }
        }
    }
}

impl<T: Default> Allocator<T> {
    /// Creates one fresh object, holding `T::default()`, and returns a
    /// handle for it.
    ///
    /// The most recently freed position is reused first; the slot keeps the
    /// generation its last removal gave it, so the new handle differs from
    /// every handle the position carried before. With no free position, a
    /// brand-new slot is appended at the next position with generation 0,
    /// unless a configured maximum forbids it: then nothing changes and
    /// `CapacityExceeded` is returned.
    pub fn create(&mut self) -> (r: Result<Handle, Error>)
        requires
            old(self).wf(),
        ensures
            final(self).wf(),
            r is Ok <==> old(self).can_create(),
            final(self).table_len() >= old(self).table_len(),
            forall|p: int|
                old(self).in_table(p) ==> final(self).slot_at(p).generation >= (#[trigger] old(
                    self,
                ).slot_at(p)).generation,
            r is Err ==> *final(self) == *old(self) && r == Result::<Handle, Error>::Err(
                Error::CapacityExceeded,
            ),
            match r {
                Result::Ok(h) => {
                    &&& final(self).valid_handle(h)
                    &&& !old(self).valid_handle(h)
                    &&& !h.is_null()
                    &&& final(self).live_count() == old(self).live_count() + 1
                    &&& final(self).max_capacity() == old(self).max_capacity()
                    &&& call_ensures(T::default, (), final(self).slot_at(h.position as int).value())
                    &&& if old(self).free_positions().len() > 0 {
                        &&& h.position == old(self).free_positions().last()
                        &&& h.generation == old(self).slot_at(h.position as int).generation
                        &&& final(self).table_len() == old(self).table_len()
                        &&& final(self).free_positions() == old(self).free_positions().drop_last()
                    } else {
                        &&& h.position == old(self).table_len() + 1
                        &&& h.generation == 0
                        &&& final(self).table_len() == old(self).table_len() + 1
                        &&& final(self).free_positions() == old(self).free_positions()
                    }
                    &&& forall|p: int|
                        old(self).in_table(p) && p != h.position ==> final(self).slot_at(p) == old(
                            self,
                        ).slot_at(p)
                    &&& forall|h2: Handle|
                        h2.position != h.position ==> (final(self).valid_handle(h2) <==> old(
                            self,
                        ).valid_handle(h2))
                },
                Result::Err(_) => true,
            },
    {
        let table_len = self.slots.len();
        if self.free.len() == 0 {
            if !self.free.can_append(table_len) {
                return Err(Error::CapacityExceeded);
            }
        }
        match self.free.pop() {
            Some(p) => {
                proof {
                    let fp = old(self).free_positions();
                    assert(p == fp[fp.len() - 1]);
                    assert(old(self).in_table(p as int));
                }
                let idx = p - 1;
                let g = self.slots[idx].generation;
                let new_slot = Slot { generation: g, state: SlotState::Occupied(T::default()) };
                proof {
                    lemma_occupied_count_update(self.slots@, idx as int, new_slot);
                    lemma_occupied_count_le_len(self.slots@.update(idx as int, new_slot));
                }
                self.slots[idx] = new_slot;
                self.live = self.live + 1;
                let h = Handle { position: p, generation: g };
                proof {
                    self.lemma_create_reuse_wf(*old(self), h);
                }
                Ok(h)
            },
            None => {
                let new_slot = Slot { generation: 0u32, state: SlotState::Occupied(T::default()) };
                proof {
                    lemma_occupied_count_push(self.slots@, new_slot);
                    lemma_occupied_count_le_len(self.slots@);
                }
                self.slots.push(new_slot);
                let p = self.slots.len();
                self.live = self.live + 1;
                let h = Handle { position: p, generation: 0u32 };
                proof {
                    self.lemma_create_append_wf(*old(self), h);
                }
                Ok(h)
            },
        }
    }
}

} // verus!
