use vstd::prelude::*;
use crate::shape::Shape;
use crate::shape::is_pow2;
use crate::storage::ByteBuf;
use crate::storage::contents;

verus! {

/// `s` with the range starting at `at` overwritten by `data`; the rest
/// of the sequence is kept.
pub open spec fn splice(s: Seq<u8>, at: int, data: Seq<u8>) -> Seq<u8> {
    s.take(at) + data + s.skip(at + data.len())
}

pub proof fn lemma_splice(s: Seq<u8>, at: int, data: Seq<u8>)
    requires
        0 <= at,
        at + data.len() <= s.len(),
    ensures
        splice(s, at, data).len() == s.len(),
        forall|k: int|
            0 <= k < s.len() ==> #[trigger] splice(s, at, data)[k] == if at <= k < at
                + data.len() {
                data[k - at]
            } else {
                s[k]
            },
{
}

/// Mathematical state of an [`Arena`]: the shape it serves, the cap on
/// its byte length, the bytes stored so far, and the freed offsets
/// available for reuse, most recently freed last.
#[verifier::ext_equal]
pub struct ArenaView {
    pub vtable: u64,
    pub size: nat,
    pub align: nat,
    pub offset_bound: nat,
    pub bytes: Seq<u8>,
    pub slots: Seq<u32>,
}

impl ArenaView {
    /// `off` addresses one whole slot of this arena: in bounds and a
    /// multiple of the slot size.
    pub open spec fn valid_offset(self, off: int) -> bool {
        &&& 0 <= off
        &&& off % self.size as int == 0
        &&& off + self.size <= self.bytes.len()
    }

    pub open spec fn wf(self) -> bool {
        &&& 1 <= self.size <= isize::MAX
        &&& is_pow2(self.align)
        &&& self.offset_bound <= u32::MAX
        &&& self.bytes.len() <= usize::MAX
        &&& self.bytes.len() as int % self.size as int == 0
        &&& forall|i: int|
            0 <= i < self.slots.len() ==> self.valid_offset(#[trigger] self.slots[i] as int)
    }

    /// The arena serves exactly one shape for its whole lifetime.
    pub open spec fn matches(self, shape: Shape) -> bool {
        &&& self.vtable == shape.vtable
        &&& self.size == shape.size as nat
        &&& self.align == shape.align as nat
    }

    /// A full arena takes no further value: its byte length has passed
    /// the configured offset bound, so a fresh offset would not fit.
    pub open spec fn is_full(self) -> bool {
        self.bytes.len() > self.offset_bound
    }

    /// The bytes of the value stored at `off`.
    pub open spec fn value_at(self, off: int) -> Seq<u8> {
        self.bytes.subrange(off, off + self.size)
    }

    /// An arena holding no value yet, serving `shape`, with its byte
    /// length capped at `offset_bound`.
    pub open spec fn empty(shape: Shape, offset_bound: nat) -> ArenaView {
        ArenaView {
            vtable: shape.vtable,
            size: shape.size as nat,
            align: shape.align as nat,
            offset_bound,
            bytes: Seq::empty(),
            slots: Seq::empty(),
        }
    }

    /// One insertion: overwrite the most recently freed slot when one
    /// exists, else append at the end of the buffer. Returns the new
    /// state and the offset of the inserted value.
    pub open spec fn spec_push(self, data: Seq<u8>) -> (ArenaView, u32) {
        if self.slots.len() > 0 {
            let off = self.slots.last();
            (
                ArenaView {
                    bytes: splice(self.bytes, off as int, data),
                    slots: self.slots.drop_last(),
                    ..self
                },
                off,
            )
        } else {
            (ArenaView { bytes: self.bytes + data, ..self }, self.bytes.len() as u32)
        }
    }

    /// One removal: the offset merely becomes reusable; no byte of the
    /// buffer is touched.
    pub open spec fn spec_remove(self, off: u32) -> ArenaView {
        ArenaView { slots: self.slots.push(off), ..self }
    }
}

/// Two distinct whole-slot offsets address disjoint byte ranges.
proof fn lemma_distinct_offsets_disjoint(size: int, a: int, b: int)
    requires
        1 <= size,
        a % size == 0,
        b % size == 0,
        a < b,
    ensures
        a + size <= b,
{
    let d = b - a;
    assert(d % size == 0) by {
        vstd::arithmetic::div_mod::lemma_sub_mod_noop(b, a, size);
        vstd::arithmetic::div_mod::lemma_small_mod(0, size as nat);
    }
    assert(d >= size) by {
        vstd::arithmetic::div_mod::lemma_fundamental_div_mod(d, size);
        assert(d == size * (d / size));
        if d / size <= 0 {
            assert(size * (d / size) <= 0) by (nonlinear_arith)
                requires size >= 1 && d / size <= 0;
            assert(false);
        }
        assert(size * (d / size) >= size) by (nonlinear_arith)
            requires size >= 1 && d / size >= 1;
    }
}

/// What one insertion does to an arena: the result is well-formed, the
/// new value sits at the returned offset, and every other whole slot of
/// the old buffer keeps its bytes.
pub proof fn lemma_spec_push(a: ArenaView, data: Seq<u8>)
    requires
        a.wf(),
        !a.is_full(),
        data.len() == a.size,
        a.slots.len() > 0 || a.bytes.len() + a.size <= isize::MAX,
    ensures
        ({
            let (a2, off) = a.spec_push(data);
            &&& a2.wf()
            &&& a2.vtable == a.vtable
            &&& a2.size == a.size
            &&& a2.align == a.align
            &&& a2.offset_bound == a.offset_bound
            &&& a2.valid_offset(off as int)
            &&& off as nat <= a.offset_bound
            &&& a2.value_at(off as int) == data
            &&& a2.bytes.len() as int == if a.slots.len() > 0 {
                a.bytes.len() as int
            } else {
                (a.bytes.len() + a.size) as int
            }
            &&& forall|o: int|
                a.valid_offset(o) && o != off as int ==> a2.valid_offset(o)
                    && #[trigger] a2.value_at(o) == a.value_at(o)
        }),
{
    let (a2, off) = a.spec_push(data);
    if a.slots.len() > 0 {
        let offi = off as int;
        assert(a.valid_offset(offi));
        lemma_splice(a.bytes, offi, data);
        assert(a2.bytes =~= splice(a.bytes, offi, data));
        assert(a2.value_at(offi) =~= data);
        assert forall|o: int| a.valid_offset(o) && o != offi implies a2.valid_offset(o)
            && #[trigger] a2.value_at(o) == a.value_at(o) by {
            if o < offi {
                lemma_distinct_offsets_disjoint(a.size as int, o, offi);
            } else {
                lemma_distinct_offsets_disjoint(a.size as int, offi, o);
            }
            assert(a2.value_at(o) =~= a.value_at(o));
        }
        assert(a2.wf()) by {
            assert(forall|i: int|
                0 <= i < a2.slots.len() ==> a2.slots[i] == a.slots[i]);
        }
    } else {
        let offi = a.bytes.len() as int;
        assert(off as int == offi);
        assert(a2.value_at(offi) =~= data);
        assert(a2.bytes.len() as int % a2.size as int == 0) by {
            vstd::arithmetic::div_mod::lemma_add_mod_noop(
                a.bytes.len() as int,
                a.size as int,
                a.size as int,
            );
            vstd::arithmetic::div_mod::lemma_mod_self_0(a.size as int);
            vstd::arithmetic::div_mod::lemma_small_mod(0, a.size);
        }
        assert(offi % a.size as int == 0);
        assert forall|o: int| a.valid_offset(o) && o != offi implies a2.valid_offset(o)
            && #[trigger] a2.value_at(o) == a.value_at(o) by {
            assert(a2.value_at(o) =~= a.value_at(o));
        }
    }
}

/// Contiguous byte storage plus a free-slot list for exactly one shape.
///
/// The buffer's base alignment is fixed at creation to the shape's
/// alignment and survives growth; freed offsets are reused most recent
/// first. Removal never runs any logic of the stored value: its bytes
/// stay inert until overwritten by a later reuse.
pub struct Arena {
    vtable: u64,
    size: usize,
    align: usize,
    offset_bound: u32,
    bytes: ByteBuf,
    slots: Vec<u32>,
}

impl View for Arena {
    type V = ArenaView;

    closed spec fn view(&self) -> ArenaView {
        ArenaView {
            vtable: self.vtable,
            size: self.size as nat,
            align: self.align as nat,
            offset_bound: self.offset_bound as nat,
            bytes: contents(self.bytes),
            slots: self.slots@,
        }
    }
}

impl Arena {
    /// Open an empty arena for `shape`, whose byte length may grow up
    /// to `offset_bound`.
    pub fn new(shape: Shape, offset_bound: u32) -> (r: Arena)
        requires
            shape.wf(),
        ensures
            r@ == ArenaView::empty(shape, offset_bound as nat),
            r@.wf(),
            r@.matches(shape),
    {
        let r = Arena {
            vtable: shape.vtable,
            size: shape.size,
            align: shape.align,
            offset_bound,
            bytes: ByteBuf::new(shape.align),
            slots: Vec::new(),
        };
        proof {
            assert(r@ =~= ArenaView::empty(shape, offset_bound as nat));
            vstd::arithmetic::div_mod::lemma_small_mod(0, shape.size as nat);
        }
        r
    }

    /// True when the byte length has passed the offset bound, so the
    /// container must open a new arena for this shape.
    pub fn is_full(&self) -> (r: bool)
        ensures
            r == self@.is_full(),
    {
        self.bytes.len() > self.offset_bound as usize
    }

    /// True when this arena serves exactly `shape`.
    pub fn matches(&self, shape: Shape) -> (r: bool)
        ensures
            r == self@.matches(shape),
    {
        self.vtable == shape.vtable && self.size == shape.size && self.align == shape.align
    }

    /// The dispatch-table identifier of the shape this arena serves.
    pub fn vtable(&self) -> (r: u64)
        ensures
            r == self@.vtable,
    {
        self.vtable
    }

    /// True when `offset` addresses one whole slot of this arena: in
    /// bounds and aligned to whole slots.
    pub fn valid_offset(&self, offset: u32) -> (r: bool)
        requires
            self@.wf(),
        ensures
            r == self@.valid_offset(offset as int),
    {
        let off = offset as usize;
        let len = self.bytes.len();
        off % self.size == 0 && off <= len && self.size <= len - off
    }

    /// How many freed slots are waiting for reuse.
    pub fn free_slots(&self) -> (r: usize)
        ensures
            r == self@.slots.len(),
    {
        self.slots.len()
    }

    /// The occupied byte length of the buffer.
    pub fn len_bytes(&self) -> (r: usize)
        ensures
            r == self@.bytes.len(),
    {
        self.bytes.len()
    }

    /// Store `data` as one value: into the most recently freed slot if
    /// one exists, else appended at the end of the buffer. Returns the
    /// value's offset.
    pub fn push(&mut self, data: &[u8]) -> (offset: u32)
        requires
            old(self)@.wf(),
            !old(self)@.is_full(),
            data@.len() == old(self)@.size,
            old(self)@.slots.len() > 0 || old(self)@.bytes.len() + old(self)@.size
                <= isize::MAX,
        ensures
            final(self)@ == old(self)@.spec_push(data@).0,
            offset == old(self)@.spec_push(data@).1,
            final(self)@.wf(),
    {
        proof {
            lemma_spec_push(old(self)@, data@);
        }
        match self.slots.pop() {
            Some(off) => {
                let start = off as usize;
                let end = start + self.size;
                self.bytes.write_range(start, end, data);
                proof {
                    assert(final(self)@ =~= old(self)@.spec_push(data@).0);
                }
                off
            },
            None => {
                let len = self.bytes.len();
                self.bytes.extend(data);
                proof {
                    assert(final(self)@ =~= old(self)@.spec_push(data@).0);
                }
                len as u32
            },
        }
    }

    /// The bytes of the value stored at `offset`, as a shared slice.
    pub fn get(&self, offset: u32) -> (r: &[u8])
        requires
            self@.wf(),
            self@.valid_offset(offset as int),
        ensures
            r@ == self@.value_at(offset as int),
    {
        self.bytes.slice_at(offset as usize, offset as usize + self.size)
    }

    /// The bytes of the value stored at `offset`, as an exclusive
    /// slice: writes through it land in the same slot of the buffer.
    pub fn get_mut(&mut self, offset: u32) -> (r: &mut [u8])
        requires
            old(self)@.wf(),
            old(self)@.valid_offset(offset as int),
        ensures
            r@ == old(self)@.value_at(offset as int),
            final(r)@.len() == old(self)@.size,
            final(self)@ == (ArenaView {
                bytes: splice(old(self)@.bytes, offset as int, final(r)@),
                ..old(self)@
            }),
            final(self)@.wf(),
    {
        self.bytes.slice_mut(offset as usize, offset as usize + self.size)
    }

    /// Mark `offset` reusable. The bytes of the slot are not touched;
    /// no logic of the stored value runs.
    pub fn remove(&mut self, offset: u32)
        requires
            old(self)@.wf(),
            old(self)@.valid_offset(offset as int),
        ensures
            final(self)@ == old(self)@.spec_remove(offset),
            final(self)@.wf(),
    {
        self.slots.push(offset);
        proof {
            assert(final(self)@ =~= old(self)@.spec_remove(offset));
        }
    }
}

impl Clone for Arena {
    /// Deep copy: the byte buffer and the free-slot list are copied
    /// verbatim; the dispatch-table identifier is copied as an opaque
    /// value.
    fn clone(&self) -> (r: Self)
        ensures
            r@ == self@,
    {
        let r = Arena {
            vtable: self.vtable,
            size: self.size,
            align: self.align,
            offset_bound: self.offset_bound,
            bytes: self.bytes.clone(),
            slots: self.slots.clone(),
        };
        proof {
            assert(r@ =~= self@);
        }
        r
    }
}

} // verus!
