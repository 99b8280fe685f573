use vstd::prelude::*;

verus! {

/// Index to access an element stored in the arena.
///
/// A handle is an opaque (arena index, byte offset) pair. It is `Copy`
/// and ordered lexicographically by `(index, offset)`, so that batches
/// of handles can be sorted for cache-friendly traversal. Handles carry
/// no versioning: a handle whose slot was removed and later recycled
/// resolves to the new occupant of the slot.
#[derive(Clone, Copy, Debug, Eq, Ord, PartialEq, PartialOrd, Structural)]
pub struct Handle {
    /// Position of the owning arena inside the container.
    pub index: u32,
    /// Byte offset of the value inside that arena's buffer.
    pub offset: u32,
}

} // verus!
