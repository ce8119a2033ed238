//! The opaque identifier handed out by the allocator.

use core::cmp::Ordering;
use vstd::prelude::*;

verus! {

/// An opaque, copyable, comparable identifier for one object in an
/// [`crate::Allocator`]: a slot position plus the generation the slot had
/// when the object was created.
///
/// Positions are 1-based; position `0` is reserved for the null handle,
/// which no allocator ever issues, so `Handle::new()` is permanently
/// invalid and distinguishable from every allocated handle. A handle is
/// pure data: it owns nothing, and copying or dropping it has no effect on
/// the object it names.
#[derive(Copy, Clone, Debug, PartialEq, Eq, Hash, Structural)]
pub struct Handle {
    /// 1-based slot position; `0` means "never assigned" (the null handle).
    pub position: usize,
    /// The generation the slot carried when this handle was issued.
    pub generation: u32,
}

impl Handle {
    /// True of the null handle, the one value `new` returns.
    pub open spec fn is_null(self) -> bool {
        self.position == 0
    }

    /// Returns the null handle: no position, generation zero. It is never
    /// valid for any allocator.
    pub fn new() -> (h: Handle)
        ensures
            h.is_null(),
            h.position == 0,
            h.generation == 0,
    {
        Handle { position: 0, generation: 0 }
    }

    /// The handle's position, or `None` for the null handle.
    pub fn get_index(&self) -> (r: Option<usize>)
        ensures
            r == (if self.is_null() {
                Option::<usize>::None
            } else {
                Option::Some(self.position)
            }),
    {
        if self.position == 0 {
            None
        } else {
            Some(self.position)
        }
    }

    /// The generation the handle was issued with.
    pub fn get_generation(&self) -> (g: u32)
        ensures
            g == self.generation,
    {
        self.generation
    }
}

/// Ordering is defined by `position` alone: two handles for the same
/// position compare equal under `partial_cmp` even when their generations
/// differ, which supports deterministic sorting of handle sets without
/// implying anything about object lifetime. Full equality (`==`) still
/// requires both fields to match.
impl PartialOrd for Handle {
    fn partial_cmp(&self, other: &Handle) -> (r: Option<Ordering>) {
        if self.position < other.position {
            Some(Ordering::Less)
        } else if self.position == other.position {
            Some(Ordering::Equal)
        } else {
            Some(Ordering::Greater)
        }
    }
}

impl vstd::std_specs::cmp::PartialOrdSpecImpl for Handle {
    open spec fn obeys_partial_cmp_spec() -> bool {
        true
    }

    open spec fn partial_cmp_spec(&self, other: &Handle) -> Option<Ordering> {
        if self.position < other.position {
            Some(Ordering::Less)
        } else if self.position == other.position {
            Some(Ordering::Equal)
        } else {
            Some(Ordering::Greater)
        }
    }
}

} // verus!
