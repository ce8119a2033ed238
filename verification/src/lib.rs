//! A generational handle allocator (slot map).
//!
//! The allocator owns a growing collection of objects of one type and hands
//! out opaque, copyable [`Handle`]s as the only way to reach them. A handle
//! stays valid across insertions and removals of *other* objects, and a
//! use-after-free of its *own* object is detected: every slot carries a
//! generation counter that is bumped when the slot is freed, so a handle
//! issued before the free can never be mistaken for one issued after the
//! slot is reused.

pub mod allocator;
pub mod error;
pub mod free_list;
pub mod handle;
pub mod slot;

pub use allocator::Allocator;
pub use error::Error;
pub use free_list::FreeList;
pub use handle::Handle;
pub use slot::Slot;
pub use slot::SlotState;
