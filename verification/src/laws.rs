//! The container's laws, stated and proved over the mathematical state:
//! what one insertion does, what it leaves alone, how removal and slot
//! reuse interact, and when a new arena is opened.

use vstd::prelude::*;
use crate::arena::lemma_spec_push;
use crate::handle::Handle;
use crate::hato::HatoView;
use crate::hato::lemma_first_fit_char;
use crate::hato::lemma_first_fit_props;
use crate::shape::Shape;

verus! {

/// Everything one insertion does to a container: the result is
/// well-formed, the returned handle resolves to the inserted bytes
/// under the shape's dispatch table, at most the receiving arena
/// changes, and every other valid handle keeps its value.
pub proof fn lemma_push(v: HatoView, shape: Shape, data: Seq<u8>)
    requires
        v.wf(),
        shape.wf(),
        data.len() == shape.size,
        v.can_push(shape),
    ensures
        ({
            let (v2, h) = v.spec_push(shape, data);
            &&& v2.wf()
            &&& v2.index_bound == v.index_bound
            &&& v2.offset_bound == v.offset_bound
            &&& v2.valid_handle(h)
            &&& h.index as nat <= v.index_bound
            &&& h.offset as nat <= v.offset_bound
            &&& v2.value_at(h) == data
            &&& v2.vtable_at(h) == shape.vtable
            &&& v2.arenas[h.index as int].matches(shape)
            &&& h.index as int == v.target_index(shape)
            &&& v2.arenas.len() as int == if v.target_index(shape) < v.arenas.len() {
                v.arenas.len() as int
            } else {
                (v.arenas.len() + 1) as int
            }
            &&& forall|k: int|
                0 <= k < v.arenas.len() && k != h.index as int ==> v2.arenas[k] == #[trigger] v.arenas[k]
            &&& forall|h2: Handle|
                #[trigger] v.valid_handle(h2) && h2 != h ==> v2.valid_handle(h2) && v2.value_at(
                    h2,
                ) == v.value_at(h2)
        }),
{
    let t = v.target_index(shape);
    let (v2, h) = v.spec_push(shape, data);
    lemma_first_fit_props(v.arenas, shape);
    if t < v.arenas.len() {
        let a = v.arenas[t];
        lemma_spec_push(a, data);
        let (a2, off) = a.spec_push(data);
        assert(h.index as int == t);
        assert forall|h2: Handle| #[trigger] v.valid_handle(h2) && h2 != h implies
            v2.valid_handle(h2) && v2.value_at(h2) == v.value_at(h2) by {
            if h2.index as int == t {
                assert(h2.offset != h.offset);
                assert(a.valid_offset(h2.offset as int));
                assert(a2.value_at(h2.offset as int) == a.value_at(h2.offset as int));
            }
        }
    } else {
        let a = crate::arena::ArenaView::empty(shape, v.offset_bound);
        assert(a.wf()) by {
            vstd::arithmetic::div_mod::lemma_small_mod(0, shape.size as nat);
        }
        lemma_spec_push(a, data);
        assert(v.arenas.len() <= v.index_bound);
        assert(h.index as int == t);
    }
}

/// Removal only recycles the slot: the container stays well-formed,
/// every valid handle stays valid, and no stored value changes — the
/// removed slot's bytes included, which stay inert until overwritten.
pub proof fn lemma_remove(v: HatoView, h: Handle)
    requires
        v.wf(),
        v.valid_handle(h),
    ensures
        ({
            let v2 = v.spec_remove(h);
            &&& v2.wf()
            &&& v2.index_bound == v.index_bound
            &&& v2.offset_bound == v.offset_bound
            &&& v2.arenas.len() == v.arenas.len()
            &&& forall|h2: Handle|
                #[trigger] v.valid_handle(h2) ==> v2.valid_handle(h2) && v2.value_at(h2)
                    == v.value_at(h2)
            &&& forall|k: int|
                0 <= k < v.arenas.len() && k != h.index as int ==> v2.arenas[k] == #[trigger] v.arenas[k]
        }),
{
    let v2 = v.spec_remove(h);
    let a = v.arenas[h.index as int];
    let a2 = v2.arenas[h.index as int];
    assert(a2.wf()) by {
        assert(forall|i: int|
            0 <= i < a.slots.len() ==> a2.slots[i] == #[trigger] a.slots[i]);
        assert(a2.slots.last() == h.offset);
    }
    assert forall|h2: Handle| #[trigger] v.valid_handle(h2) implies v2.valid_handle(h2)
        && v2.value_at(h2) == v.value_at(h2) by {
        if h2.index == h.index {
            assert(a2.value_at(h2.offset as int) =~= a.value_at(h2.offset as int));
        }
    }
}

/// Round trip: immediately after an insertion, resolving the returned
/// handle observes exactly the inserted bytes, through exactly the
/// dispatch table of the value's shape.
pub proof fn lemma_push_round_trip(v: HatoView, shape: Shape, data: Seq<u8>)
    requires
        v.wf(),
        shape.wf(),
        data.len() == shape.size,
        v.can_push(shape),
    ensures
        ({
            let (v2, h) = v.spec_push(shape, data);
            &&& v2.wf()
            &&& v2.valid_handle(h)
            &&& v2.value_at(h) == data
            &&& v2.vtable_at(h) == shape.vtable
        }),
{
    lemma_push(v, shape, data);
}

/// Multi-shape isolation: an insertion never touches an arena of a
/// different shape, whatever the insertion order was that built the
/// container.
pub proof fn lemma_shape_isolation(v: HatoView, shape: Shape, data: Seq<u8>, j: int)
    requires
        v.wf(),
        shape.wf(),
        data.len() == shape.size,
        v.can_push(shape),
        0 <= j < v.arenas.len(),
        !v.arenas[j].matches(shape),
    ensures
        v.spec_push(shape, data).0.arenas[j] == v.arenas[j],
{
    lemma_push(v, shape, data);
    let (v2, h) = v.spec_push(shape, data);
    if j == h.index as int {
        assert(v2.arenas[j].matches(shape));
        assert(v.arenas[j].vtable == v2.arenas[j].vtable);
    }
}

/// Stability across growth: an insertion leaves every other valid
/// handle resolving to the bytes it resolved to before, however often
/// the receiving buffer has to grow. Only the returned handle's slot —
/// a recycled one, or fresh space past every existing slot — changes.
pub proof fn lemma_handle_stability(v: HatoView, shape: Shape, data: Seq<u8>, h2: Handle)
    requires
        v.wf(),
        shape.wf(),
        data.len() == shape.size,
        v.can_push(shape),
        v.valid_handle(h2),
        h2 != v.spec_push(shape, data).1,
    ensures
        v.spec_push(shape, data).0.valid_handle(h2),
        v.spec_push(shape, data).0.value_at(h2) == v.value_at(h2),
{
    lemma_push(v, shape, data);
}

/// Slot reuse: removing a handle and then inserting another value of
/// the same shape recycles exactly the freed slot, most recently freed
/// first — so the stale handle now resolves to the new occupant's
/// bytes. This is the documented ABA behavior, not an error. The
/// receiving arena must not have filled up at the first insertion;
/// otherwise the second insertion opens a fresh arena and the stale
/// handle keeps the old bytes.
pub proof fn lemma_slot_reuse(v: HatoView, shape: Shape, d1: Seq<u8>, d2: Seq<u8>)
    requires
        v.wf(),
        shape.wf(),
        d1.len() == shape.size,
        d2.len() == shape.size,
        v.can_push(shape),
        !v.spec_push(shape, d1).0.arenas[v.spec_push(shape, d1).1.index as int].is_full(),
    ensures
        ({
            let (v1, h) = v.spec_push(shape, d1);
            let vr = v1.spec_remove(h);
            &&& vr.can_push(shape)
            &&& vr.spec_push(shape, d2).1 == h
            &&& vr.spec_push(shape, d2).0.value_at(h) == d2
        }),
{
    let t = v.target_index(shape);
    let (v1, h) = v.spec_push(shape, d1);
    lemma_push(v, shape, d1);
    let vr = v1.spec_remove(h);
    lemma_remove(v1, h);
    lemma_first_fit_props(v.arenas, shape);
    // Every arena before the receiving one still fails the fit test,
    // and the receiving arena fits again: its shape is unchanged, its
    // byte length is unchanged, and it just gained a free slot.
    let ti = h.index as int;
    assert forall|k: int|
        0 <= k < ti implies !((#[trigger] vr.arenas[k]).matches(shape)
        && !vr.arenas[k].is_full()) by {
        assert(vr.arenas[k] == v.arenas[k]);
    }
    assert(vr.arenas[ti].matches(shape));
    assert(!vr.arenas[ti].is_full());
    lemma_first_fit_char(vr.arenas, shape, ti);
    let a = vr.arenas[ti];
    assert(a.slots.len() > 0);
    assert(a.slots.last() == h.offset);
    lemma_spec_push(a, d2);
    let (v3, h2) = vr.spec_push(shape, d2);
    assert(h2.index == h.index);
    assert(h2.offset == h.offset);
    assert(v3.value_at(h) == d2);
}

/// Capacity rollover: when every arena of the shape is full and an
/// arena index is still available, an insertion opens a fresh arena at
/// the next index instead of growing any buffer past its bound, and the
/// new value sits at offset zero of the new arena.
pub proof fn lemma_full_arenas_open_new(v: HatoView, shape: Shape, data: Seq<u8>)
    requires
        v.wf(),
        shape.wf(),
        data.len() == shape.size,
        forall|j: int|
            0 <= j < v.arenas.len() && (#[trigger] v.arenas[j]).matches(shape)
                ==> v.arenas[j].is_full(),
        v.arenas.len() <= v.index_bound,
    ensures
        ({
            let (v2, h) = v.spec_push(shape, data);
            &&& v2.wf()
            &&& v2.arenas.len() == v.arenas.len() + 1
            &&& h.index as int == v.arenas.len()
            &&& h.offset == 0
            &&& v2.value_at(h) == data
            &&& v2.arenas[h.index as int].matches(shape)
        }),
{
    lemma_first_fit_char(v.arenas, shape, v.arenas.len() as int);
    assert(v.can_push(shape));
    lemma_push(v, shape, data);
}

} // verus!
