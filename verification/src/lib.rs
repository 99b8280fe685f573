//! Heterogeneous object arena: values of many shapes stored behind one
//! compact handle type, with same-shape values packed into contiguous,
//! densely reused byte buffers.
//!
//! A value's *shape* pairs a dispatch-table identifier with the value
//! type's size and alignment. Each shape gets its own arena: one
//! contiguous byte buffer plus a LIFO list of freed byte offsets. The
//! container routes every insertion to the arena of the value's shape
//! (opening a new one when none has spare capacity) and hands back a
//! [`handle::Handle`], a copyable (arena index, byte offset) pair.
//! Handles stay valid across buffer growth; references handed out by
//! `get`/`get_mut` do not outlive the next mutation.
//!
//! Handles carry no versioning: using a handle after its slot was
//! removed and recycled silently resolves to the new occupant. This is
//! documented behavior, not a defect.

use vstd::prelude::*;

pub mod arena;
pub mod handle;
pub mod hato;
pub mod laws;
pub mod resolve;
pub mod shape;
pub mod storage;

verus! {

pub use arena::Arena;
pub use handle::Handle;
pub use hato::Hato;
pub use resolve::PolyRef;
pub use shape::Shape;

} // verus!
