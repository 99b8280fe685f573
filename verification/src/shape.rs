use vstd::prelude::*;

verus! {

/// Identity of a kind of stored value: a dispatch-table identifier
/// paired with the value type's size and alignment in bytes.
///
/// Two values share a shape exactly when all three components agree;
/// the shape is the partition key that decides which arena a value
/// lands in. The dispatch-table identifier is opaque to the container:
/// callers pick one identifier per (type, interface) pair and keep it
/// stable, as a language runtime does with its dispatch tables.
#[derive(Clone, Copy, Debug, Eq, PartialEq, Structural)]
pub struct Shape {
    /// Opaque identifier of the dispatch table of the value's type.
    pub vtable: u64,
    /// Size of one value of this shape, in bytes.
    pub size: usize,
    /// Required alignment of values of this shape, in bytes.
    pub align: usize,
}

/// Holds exactly of the powers of two.
pub open spec fn is_pow2(n: nat) -> bool
    decreases n,
{
    if n == 0 {
        false
    } else if n == 1 {
        true
    } else {
        n % 2 == 0 && is_pow2(n / 2)
    }
}

impl Shape {
    /// A shape describes a real, sized value type: at least one byte
    /// large, no larger than any single allocation may be, and with a
    /// power-of-two alignment.
    pub open spec fn wf(self) -> bool {
        &&& 1 <= self.size <= isize::MAX
        &&& is_pow2(self.align as nat)
    }
}

} // verus!
