//! One storage location of the slot table, and counting of occupied slots.

use vstd::prelude::*;

verus! {

/// What a slot currently holds: one live object, or nothing.
pub enum SlotState<T> {
    /// The slot holds a live object.
    Occupied(T),
    /// The slot is empty and available for reuse.
    Free,
}

/// A fixed storage location of the slot table. It is owned exclusively by
/// the table at its position and is never aliased elsewhere.
///
/// `generation` is bumped exactly once per Occupied-to-Free transition (on
/// removal) and never changes on reuse, so every handle issued for this
/// slot after a removal carries a strictly greater generation than any
/// handle that dangles from before it.
pub struct Slot<T> {
    /// How many times this slot has been freed.
    pub generation: u32,
    /// The slot's current contents.
    pub state: SlotState<T>,
}

impl<T> Slot<T> {
    /// True when the slot holds a live object.
    pub open spec fn is_occupied(self) -> bool {
        self.state is Occupied
    }

    /// The object held by an occupied slot.
    pub open spec fn value(self) -> T
        recommends
            self.is_occupied(),
    {
        self.state->Occupied_0
    }
}

/// How many slots of `s` are occupied.
pub open spec fn occupied_count<T>(s: Seq<Slot<T>>) -> nat
    decreases s.len(),
{
    if s.len() == 0 {
        0
    } else {
        occupied_count(s.drop_last()) + (if s.last().is_occupied() {
            1nat
        } else {
            0nat
        })
    }
}

/// No sequence has more occupied slots than slots.
pub proof fn lemma_occupied_count_le_len<T>(s: Seq<Slot<T>>)
    ensures
        occupied_count(s) <= s.len(),
    decreases s.len(),
{
    if s.len() > 0 {
        lemma_occupied_count_le_len(s.drop_last());
    }
}

/// Appending one slot raises the occupied count by one exactly when the new
/// slot is occupied.
pub proof fn lemma_occupied_count_push<T>(s: Seq<Slot<T>>, v: Slot<T>)
    ensures
        occupied_count(s.push(v)) == occupied_count(s) + (if v.is_occupied() {
            1nat
        } else {
            0nat
        }),
{
    assert(s.push(v).drop_last() =~= s);
    assert(s.push(v).last() == v);
}

/// Replacing one slot shifts the occupied count by the difference between
/// the new and the old slot's occupancy, and by nothing else.
pub proof fn lemma_occupied_count_update<T>(s: Seq<Slot<T>>, i: int, v: Slot<T>)
    requires
        0 <= i < s.len(),
    ensures
        occupied_count(s.update(i, v)) == occupied_count(s) + (if v.is_occupied() {
            1int
        } else {
            0int
        }) - (if s[i].is_occupied() {
            1int
        } else {
            0int
        }),
    decreases s.len(),
{
    if i == s.len() - 1 {
        assert(s.update(i, v).drop_last() =~= s.drop_last());
        assert(s.update(i, v).last() == v);
    } else {
        assert(s.update(i, v).drop_last() =~= s.drop_last().update(i, v));
        assert(s.update(i, v).last() == s.last());
        lemma_occupied_count_update(s.drop_last(), i, v);
    }
}

} // verus!
