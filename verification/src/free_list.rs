//! The stack of reusable slot positions, and the configured capacity bound.

use vstd::prelude::*;

verus! {

/// A stack of previously used, now-free slot positions, drained LIFO for
/// locality, together with the optional maximum number of positions the
/// owning allocator may ever bring into use.
///
/// The free list itself never fails: positions are pushed only when an
/// occupied slot is freed, so the caller checks the capacity bound with
/// [`FreeList::can_append`] before a brand-new position is created, not
/// here.
pub struct FreeList {
    /// Reusable positions, most recently freed last.
    pub positions: Vec<usize>,
    /// Configured maximum number of slot positions; `None` means unbounded.
    pub max_positions: Option<usize>,
}

impl FreeList {
    /// An empty free list with the given capacity bound.
    pub fn new(max_positions: Option<usize>) -> (fl: FreeList)
        ensures
            fl.positions@ == Seq::<usize>::empty(),
            fl.max_positions == max_positions,
    {
        FreeList { positions: Vec::new(), max_positions }
    }

    /// How many positions are currently free.
    pub fn len(&self) -> (n: usize)
        ensures
            n == self.positions@.len(),
    {
        self.positions.len()
    }

    /// Records `position` as reusable by pushing it onto the stack.
    pub fn push(&mut self, position: usize)
        ensures
            final(self).positions@ == old(self).positions@.push(position),
            final(self).max_positions == old(self).max_positions,
    {
        self.positions.push(position);
    }

    /// Returns the most recently freed position, or `None` when no position
    /// is free.
    pub fn pop(&mut self) -> (r: Option<usize>)
        ensures
            final(self).max_positions == old(self).max_positions,
            old(self).positions@.len() == 0 ==> {
                &&& r is None
                &&& final(self).positions@ == old(self).positions@
            },
            old(self).positions@.len() > 0 ==> {
                &&& r == Option::Some(old(self).positions@.last())
                &&& final(self).positions@ == old(self).positions@.drop_last()
            },
    {
        self.positions.pop()
    }

    /// Whether a brand-new position may be brought into use when the table
    /// already has `table_len` positions: always, unless a maximum is
    /// configured and `table_len` has reached it.
    pub fn can_append(&self, table_len: usize) -> (b: bool)
        ensures
            b == self.can_append_spec(table_len as int),
    {
        match self.max_positions {
            None => true,
            Some(m) => table_len < m,
        }
    }

    /// The capacity check `can_append` implements.
    pub open spec fn can_append_spec(self, table_len: int) -> bool {
        match self.max_positions {
            None => true,
            Some(m) => table_len < m,
        }
    }
}

} // verus!
