use vstd::prelude::*;
use aligned_vec::AVec;
use aligned_vec::RuntimeAlign;
use crate::shape::is_pow2;

verus! {

/// Growable byte storage whose base address keeps a caller-chosen
/// alignment even across reallocation, backed by `aligned_vec::AVec`.
///
/// Verus sees the buffer only through the abstract [`contents`]
/// sequence; the alignment guarantee is physical and carried by the
/// outside crate alone.
#[verifier::external_body]
pub struct ByteBuf {
    buf: AVec<u8, RuntimeAlign>,
}

/// The bytes held by a [`ByteBuf`], in storage order.
pub uninterp spec fn contents(b: ByteBuf) -> Seq<u8>;

impl ByteBuf {
    /// Relies on `AVec::new`: a freshly created vector is empty. `AVec::new`
    /// panics only when the requested alignment is neither zero nor a power
    /// of two (`RuntimeAlign::new`), which the precondition rules out.
    #[verifier::external_body]
    pub fn new(align: usize) -> (r: ByteBuf)
        requires
            is_pow2(align as nat),
        ensures
            contents(r) == Seq::<u8>::empty(),
    {
        ByteBuf { buf: AVec::new(align) }
    }

    /// Relies on `AVec::len`: the number of elements currently held.
    #[verifier::external_body]
    pub fn len(&self) -> (r: usize)
        ensures
            r == contents(*self).len(),
    {
        self.buf.len()
    }

    /// Relies on `AVec::extend_from_slice`: appends the slice's bytes in
    /// order, reallocating as needed while keeping the base alignment.
    /// Growth panics only when the new length overflows the allocation
    /// limit (`grow_amortized`), which the precondition rules out.
    #[verifier::external_body]
    pub fn extend(&mut self, data: &[u8])
        requires
            contents(*old(self)).len() + data@.len() <= isize::MAX,
        ensures
            contents(*final(self)) == contents(*old(self)) + data@,
    {
        self.buf.extend_from_slice(data)
    }

    /// Relies on `AVec`'s `Deref` to a slice: shared access to the byte
    /// range `start..end` of the buffer.
    #[verifier::external_body]
    pub fn slice_at<'a>(&'a self, start: usize, end: usize) -> (r: &'a [u8])
        requires
            start <= end <= contents(*self).len(),
        ensures
            r@ == contents(*self).subrange(start as int, end as int),
    {
        &self.buf[start..end]
    }

    /// Relies on `AVec`'s `DerefMut` to a slice: exclusive access to the
    /// byte range `start..end`. Writes made through the returned slice
    /// land in exactly that range of the buffer, whose length a slice
    /// borrow cannot change.
    #[verifier::external_body]
    pub fn slice_mut<'a>(&'a mut self, start: usize, end: usize) -> (r: &'a mut [u8])
        requires
            start <= end <= contents(*old(self)).len(),
        ensures
            r@ == contents(*old(self)).subrange(start as int, end as int),
            final(r)@.len() == end - start,
            contents(*final(self)) == contents(*old(self)).take(start as int) + final(r)@
                + contents(*old(self)).skip(end as int),
    {
        &mut self.buf[start..end]
    }

    /// Relies on slice `copy_from_slice`, reached through `AVec`'s
    /// `DerefMut`: overwrites the byte range `start..end` with `data`.
    /// `copy_from_slice` panics only when the two lengths differ, which
    /// the precondition rules out.
    #[verifier::external_body]
    pub fn write_range(&mut self, start: usize, end: usize, data: &[u8])
        requires
            start <= end <= contents(*old(self)).len(),
            data@.len() == end - start,
        ensures
            contents(*final(self)) == contents(*old(self)).take(start as int) + data@
                + contents(*old(self)).skip(end as int),
    {
        self.buf[start..end].copy_from_slice(data)
    }
}

impl Clone for ByteBuf {
    /// Relies on `AVec::clone`: copies the contents and the alignment
    /// into fresh, independent storage.
    #[verifier::external_body]
    fn clone(&self) -> (r: Self)
        ensures
            contents(r) == contents(*self),
    {
        ByteBuf { buf: self.buf.clone() }
    }
}

} // verus!
