//! Error values returned by the allocator's fallible operations.

use vstd::prelude::*;

verus! {

/// Why an allocator operation was refused.
///
/// Both conditions are expected, recoverable misuses of the API, never
/// panics: creation past a configured maximum, and lookups or removals
/// through a handle that is stale, forged, or the null handle. A double
/// free surfaces as `StaleOrInvalidHandle`, because the first removal
/// already bumped the slot's generation.
#[derive(Copy, Clone, Debug, PartialEq, Eq, Structural)]
pub enum Error {
    /// `create` was called with no free position left and the slot table
    /// already at its configured maximum length.
    CapacityExceeded,
    /// The handle's position was never assigned, lies beyond the table, or
    /// its generation no longer matches the slot's current generation.
    StaleOrInvalidHandle,
}

} // verus!
