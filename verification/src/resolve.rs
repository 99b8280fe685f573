use vstd::prelude::*;

verus! {

/// A polymorphic reference: a value's raw bytes paired with the
/// dispatch-table identifier those bytes must be interpreted through.
///
/// A dynamically dispatched reference is, internally, exactly such a
/// (data location, dispatch table) pair; the container stores the two
/// halves independently and reassembles them on every lookup.
#[derive(Clone, Copy)]
pub struct PolyRef<'a> {
    /// Dispatch-table identifier of the value's shape.
    pub vtable: u64,
    /// The stored value's bytes.
    pub data: &'a [u8],
}

/// Reconstruct a reference usable through the common interface from its
/// two independently stored halves. The pairing itself is the whole
/// operation; the handle contract makes the caller guarantee that
/// `data` holds a complete value of the type the dispatch table was
/// captured for.
pub fn resolve<'a>(vtable: u64, data: &'a [u8]) -> (r: PolyRef<'a>)
    ensures
        r.vtable == vtable,
        r.data@ == data@,
{
    PolyRef { vtable, data }
}

} // verus!
