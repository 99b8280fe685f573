use vstd::prelude::*;
use crate::arena::Arena;
use crate::arena::ArenaView;
use crate::arena::splice;
use crate::handle::Handle;
use crate::resolve::PolyRef;
use crate::resolve::resolve;
use crate::shape::Shape;

verus! {

/// Mathematical state of a [`Hato`] container: the states of its
/// arenas in creation order, and the two capacity bounds that the
/// handle's integer fields must respect.
#[verifier::ext_equal]
pub struct HatoView {
    pub arenas: Seq<ArenaView>,
    pub index_bound: nat,
    pub offset_bound: nat,
}

/// Index of the first arena that serves `shape` and still has room;
/// `arenas.len()` when there is none.
pub open spec fn first_fit(arenas: Seq<ArenaView>, shape: Shape) -> int
    decreases arenas.len(),
{
    if arenas.len() == 0 {
        0
    } else if arenas[0].matches(shape) && !arenas[0].is_full() {
        0
    } else {
        1 + first_fit(arenas.drop_first(), shape)
    }
}

/// `first_fit` is exactly the position characterized by: every arena
/// before it fails the test, and it passes the test unless it is the
/// length of the sequence.
pub proof fn lemma_first_fit_char(arenas: Seq<ArenaView>, shape: Shape, i: int)
    requires
        0 <= i <= arenas.len(),
        forall|k: int|
            0 <= k < i ==> !((#[trigger] arenas[k]).matches(shape) && !arenas[k].is_full()),
        i < arenas.len() ==> arenas[i].matches(shape) && !arenas[i].is_full(),
    ensures
        first_fit(arenas, shape) == i,
    decreases arenas.len(),
{
    if arenas.len() == 0 {
    } else if arenas[0].matches(shape) && !arenas[0].is_full() {
        if i > 0 {
            assert(!(arenas[0].matches(shape) && !arenas[0].is_full()));
        }
    } else {
        assert(!(arenas[0].matches(shape) && !arenas[0].is_full()));
        assert(i >= 1);
        let rest = arenas.drop_first();
        assert forall|k: int|
            0 <= k < i - 1 implies !((#[trigger] rest[k]).matches(shape)
            && !rest[k].is_full()) by {
            assert(rest[k] == arenas[k + 1]);
        }
        if i - 1 < rest.len() {
            assert(rest[i - 1] == arenas[i]);
        }
        lemma_first_fit_char(rest, shape, i - 1);
    }
}

/// `first_fit` stays within bounds, passes the test when it is not the
/// length, and everything before it fails the test.
pub proof fn lemma_first_fit_props(arenas: Seq<ArenaView>, shape: Shape)
    ensures
        0 <= first_fit(arenas, shape) <= arenas.len(),
        first_fit(arenas, shape) < arenas.len() ==> arenas[first_fit(arenas, shape)].matches(
            shape,
        ) && !arenas[first_fit(arenas, shape)].is_full(),
        forall|k: int|
            0 <= k < first_fit(arenas, shape) ==> !((#[trigger] arenas[k]).matches(shape)
                && !arenas[k].is_full()),
    decreases arenas.len(),
{
    if arenas.len() == 0 {
    } else if arenas[0].matches(shape) && !arenas[0].is_full() {
    } else {
        let rest = arenas.drop_first();
        lemma_first_fit_props(rest, shape);
        let f = first_fit(arenas, shape);
        assert(f == 1 + first_fit(rest, shape));
        assert forall|k: int|
            0 <= k < f implies !((#[trigger] arenas[k]).matches(shape)
            && !arenas[k].is_full()) by {
            if k >= 1 {
                assert(arenas[k] == rest[k - 1]);
            }
        }
        if f < arenas.len() {
            assert(arenas[f] == rest[f - 1]);
        }
    }
}

impl HatoView {
    pub open spec fn wf(self) -> bool {
        &&& self.index_bound <= u32::MAX
        &&& self.offset_bound <= u32::MAX
        &&& self.arenas.len() <= self.index_bound + 1
        &&& forall|i: int| 0 <= i < self.arenas.len() ==> (#[trigger] self.arenas[i]).wf()
        &&& forall|i: int|
            0 <= i < self.arenas.len() ==> (#[trigger] self.arenas[i]).offset_bound
                == self.offset_bound
    }

    /// Index of the arena the next insertion of `shape` goes to;
    /// `arenas.len()` means a new arena must be opened for it.
    pub open spec fn target_index(self, shape: Shape) -> int {
        first_fit(self.arenas, shape)
    }

    /// An insertion of `shape` can be served: a new arena index is
    /// still available when every arena of the shape is full, and the
    /// receiving buffer can grow without passing the platform's
    /// allocation limit.
    pub open spec fn can_push(self, shape: Shape) -> bool {
        let t = self.target_index(shape);
        &&& t < self.arenas.len() || self.arenas.len() <= self.index_bound
        &&& t < self.arenas.len() ==> self.arenas[t].slots.len() > 0 || self.arenas[t].bytes.len()
            + shape.size <= isize::MAX
    }

    /// One insertion: route to the first arena of the value's shape
    /// with room, opening a new arena when none has; the handle pairs
    /// the arena's index with the offset the arena assigned.
    pub open spec fn spec_push(self, shape: Shape, data: Seq<u8>) -> (HatoView, Handle) {
        let t = self.target_index(shape);
        if t < self.arenas.len() {
            let (a2, off) = self.arenas[t].spec_push(data);
            (
                HatoView { arenas: self.arenas.update(t, a2), ..self },
                Handle { index: t as u32, offset: off },
            )
        } else {
            let (a2, off) = ArenaView::empty(shape, self.offset_bound).spec_push(data);
            (
                HatoView { arenas: self.arenas.push(a2), ..self },
                Handle { index: t as u32, offset: off },
            )
        }
    }

    /// `h` addresses one whole slot of an existing arena.
    pub open spec fn valid_handle(self, h: Handle) -> bool {
        &&& (h.index as int) < self.arenas.len()
        &&& self.arenas[h.index as int].valid_offset(h.offset as int)
    }

    /// The bytes of the value `h` resolves to.
    pub open spec fn value_at(self, h: Handle) -> Seq<u8> {
        self.arenas[h.index as int].value_at(h.offset as int)
    }

    /// The dispatch-table identifier `h` resolves through.
    pub open spec fn vtable_at(self, h: Handle) -> u64 {
        self.arenas[h.index as int].vtable
    }

    /// `self` with the slot of `h` overwritten by `data`.
    pub open spec fn with_value(self, h: Handle, data: Seq<u8>) -> HatoView {
        let a = self.arenas[h.index as int];
        HatoView {
            arenas: self.arenas.update(
                h.index as int,
                ArenaView { bytes: splice(a.bytes, h.offset as int, data), ..a },
            ),
            ..self
        }
    }

    /// One removal: the slot becomes reusable in its arena; no byte is
    /// touched.
    pub open spec fn spec_remove(self, h: Handle) -> HatoView {
        HatoView {
            arenas: self.arenas.update(
                h.index as int,
                self.arenas[h.index as int].spec_remove(h.offset),
            ),
            ..self
        }
    }

    /// A container holding no arena yet.
    pub open spec fn empty(index_bound: nat, offset_bound: nat) -> HatoView {
        HatoView { arenas: Seq::empty(), index_bound, offset_bound }
    }
}

/// Arenas of heterogeneous values, stored by shape in separate byte
/// buffers.
///
/// Insertion routes each value to the arena of its shape, creating one
/// lazily, and returns a [`Handle`]. Removal only recycles the slot: no
/// logic of the stored value ever runs. The container is subject to the
/// ABA hazard: a handle used after its slot was removed and recycled
/// resolves, without any error, to the newly inserted occupant.
///
/// The two bounds cap how large a handle's integer fields may grow: an
/// arena index is never issued above `index_bound`, and an arena whose
/// byte length has passed `offset_bound` is full, so a fresh offset
/// never exceeds it.
pub struct Hato {
    arenas: Vec<Arena>,
    index_bound: u32,
    offset_bound: u32,
}

impl View for Hato {
    type V = HatoView;

    closed spec fn view(&self) -> HatoView {
        HatoView {
            arenas: Seq::new(self.arenas@.len(), |i: int| self.arenas@[i]@),
            index_bound: self.index_bound as nat,
            offset_bound: self.offset_bound as nat,
        }
    }
}

impl Hato {
    /// An empty container whose handles stay within the given bounds:
    /// arena indices never exceed `index_bound`, byte offsets never
    /// exceed `offset_bound`.
    pub fn with_bounds(index_bound: u32, offset_bound: u32) -> (r: Hato)
        ensures
            r@ == HatoView::empty(index_bound as nat, offset_bound as nat),
            r@.wf(),
    {
        let r = Hato { arenas: Vec::new(), index_bound, offset_bound };
        proof {
            assert(r@ =~= HatoView::empty(index_bound as nat, offset_bound as nat));
        }
        r
    }

    /// Index of the first arena serving `shape` with room, or the
    /// arena count when none has.
    fn find_target(&self, shape: Shape) -> (r: usize)
        ensures
            r as int == self@.target_index(shape),
            r <= self.arenas@.len(),
            r < self.arenas@.len() ==> self@.arenas[r as int].matches(shape)
                && !self@.arenas[r as int].is_full(),
    {
        let n = self.arenas.len();
        let mut i: usize = 0;
        let mut found = false;
        while !found && i < n
            invariant
                n == self.arenas@.len(),
                i <= n,
                forall|k: int|
                    0 <= k < i ==> !((#[trigger] self@.arenas[k]).matches(shape)
                        && !self@.arenas[k].is_full()),
                found ==> i < n && self@.arenas[i as int].matches(shape)
                    && !self@.arenas[i as int].is_full(),
            decreases n - i + (if found { 0int } else { 1int }),
        {
            if self.arenas[i].matches(shape) && !self.arenas[i].is_full() {
                found = true;
            } else {
                i += 1;
            }
        }
        proof {
            lemma_first_fit_char(self@.arenas, shape, i as int);
        }
        i
    }

    /// How many arenas the container has opened so far.
    pub fn arena_count(&self) -> (r: usize)
        ensures
            r == self@.arenas.len(),
    {
        self.arenas.len()
    }

    /// True when [`Hato::push`] can serve an insertion of `shape`.
    /// When this is false, an insertion would need an arena index or a
    /// buffer size beyond the configured bounds — the fatal capacity
    /// exhaustion case, which callers must rule out beforehand.
    pub fn can_insert(&self, shape: Shape) -> (r: bool)
        requires
            self@.wf(),
            shape.wf(),
        ensures
            r == self@.can_push(shape),
    {
        let i = self.find_target(shape);
        if i < self.arenas.len() {
            let a = &self.arenas[i];
            a.free_slots() > 0 || a.len_bytes() <= isize::MAX as usize - shape.size
        } else {
            self.arenas.len() <= self.index_bound as usize
        }
    }

    /// True when `handle` addresses one whole slot of an existing
    /// arena. Every handle this container has issued passes the test —
    /// buffers never shrink and arenas are never removed — while a
    /// handle minted elsewhere may not. Resolving an invalid handle is
    /// a contract violation.
    pub fn is_valid(&self, handle: Handle) -> (r: bool)
        requires
            self@.wf(),
        ensures
            r == self@.valid_handle(handle),
    {
        if (handle.index as usize) < self.arenas.len() {
            let a = &self.arenas[handle.index as usize];
            proof {
                assert(a@ == self@.arenas[handle.index as int]);
                assert(self@.arenas[handle.index as int].wf());
            }
            a.valid_offset(handle.offset)
        } else {
            false
        }
    }

    /// Insert one value of `shape`: route it to the first arena of that
    /// shape with room, opening a new arena when none has, and return
    /// the handle that resolves to it.
    pub fn push(&mut self, shape: Shape, data: &[u8]) -> (h: Handle)
        requires
            old(self)@.wf(),
            shape.wf(),
            data@.len() == shape.size,
            old(self)@.can_push(shape),
        ensures
            final(self)@ == old(self)@.spec_push(shape, data@).0,
            h == old(self)@.spec_push(shape, data@).1,
            final(self)@.wf(),
    {
        let ghost v0 = self@;
        let i = self.find_target(shape);
        if i == self.arenas.len() {
            self.arenas.push(Arena::new(shape, self.offset_bound));
        }
        let index: u32 = i as u32;
        let arena = &mut self.arenas[i];
        let offset = arena.push(data);
        proof {
            assert(final(self)@.arenas =~= v0.spec_push(shape, data@).0.arenas);
            assert(final(self)@ =~= v0.spec_push(shape, data@).0);
        }
        Handle { index, offset }
    }

    /// Resolve `handle` to the value it identifies, as a polymorphic
    /// reference pairing the value's bytes with the dispatch-table
    /// identifier of its arena. The caller guarantees the handle was
    /// produced by this container; the reference must not be retained
    /// across a later mutation of the container.
    pub fn get(&self, handle: Handle) -> (r: PolyRef<'_>)
        requires
            self@.wf(),
            self@.valid_handle(handle),
        ensures
            r.vtable == self@.vtable_at(handle),
            r.data@ == self@.value_at(handle),
    {
        let arena = &self.arenas[handle.index as usize];
        resolve(arena.vtable(), arena.get(handle.offset))
    }

    /// Resolve `handle` to the value it identifies, with exclusive
    /// access: the dispatch-table identifier of its arena, and the
    /// value's bytes as a mutable slice whose writes land in the slot.
    pub fn get_mut(&mut self, handle: Handle) -> ((vtable, data): (u64, &mut [u8]))
        requires
            old(self)@.wf(),
            old(self)@.valid_handle(handle),
        ensures
            vtable == old(self)@.vtable_at(handle),
            data@ == old(self)@.value_at(handle),
            final(data)@.len() == old(self)@.arenas[handle.index as int].size,
            final(self)@ == old(self)@.with_value(handle, final(data)@),
            final(self)@.wf(),
    {
        let idx = handle.index as usize;
        let vtable = self.arenas[idx].vtable();
        let arena = &mut self.arenas[idx];
        let data = arena.get_mut(handle.offset);
        (vtable, data)
    }

    /// Remove the value `handle` identifies: its slot becomes reusable
    /// by a later insertion of the same shape. The bytes are left
    /// inert; no logic of the stored value runs. Removing the same
    /// handle twice double-frees the slot — a documented hazard the
    /// caller must avoid.
    pub fn remove(&mut self, handle: Handle)
        requires
            old(self)@.wf(),
            old(self)@.valid_handle(handle),
        ensures
            final(self)@ == old(self)@.spec_remove(handle),
            final(self)@.wf(),
    {
        let arena = &mut self.arenas[handle.index as usize];
        arena.remove(handle.offset);
        proof {
            assert(final(self)@.arenas =~= old(self)@.spec_remove(handle).arenas);
            assert(final(self)@ =~= old(self)@.spec_remove(handle));
        }
    }
}

impl Default for Hato {
    /// An empty container with both handle fields bounded by the full
    /// 32-bit range, matching the default handle layout.
    fn default() -> (r: Hato)
        ensures
            r@ == HatoView::empty(u32::MAX as nat, u32::MAX as nat),
            r@.wf(),
    {
        Hato::with_bounds(u32::MAX, u32::MAX)
    }
}

impl Clone for Hato {
    /// Deep copy: the whole ordered collection of arenas is copied,
    /// each duplicating its byte buffer and free-slot list verbatim;
    /// later mutation of either container leaves the other untouched.
    fn clone(&self) -> (r: Self)
        ensures
            r@ == self@,
    {
        let r = Hato {
            arenas: self.arenas.clone(),
            index_bound: self.index_bound,
            offset_bound: self.offset_bound,
        };
        proof {
            assert forall|i: int| 0 <= i < r.arenas@.len() implies r.arenas@[i]@
                == self.arenas@[i]@ by {
                assert(cloned::<Arena>(self.arenas[i], r.arenas[i]));
            }
            assert(r@ =~= self@);
        }
        r
    }
}

} // verus!
