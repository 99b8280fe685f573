use hato::{Handle, Hato, Shape};

// Shapes used across the tests: a 4-byte integer, a 2-byte integer,
// a 1-byte integer and an 8-byte integer, each under its own
// dispatch-table identifier of a common debug-printable interface.
const I32_SHAPE: Shape = Shape { vtable: 1, size: 4, align: 4 };
const U16_SHAPE: Shape = Shape { vtable: 2, size: 2, align: 2 };
const U8_SHAPE: Shape = Shape { vtable: 3, size: 1, align: 1 };
const U64_SHAPE: Shape = Shape { vtable: 4, size: 8, align: 8 };

fn read_i32(arena: &Hato, h: Handle) -> i32 {
    let r = arena.get(h);
    assert_eq!(r.vtable, I32_SHAPE.vtable);
    i32::from_ne_bytes(r.data.try_into().unwrap())
}

fn read_u16(arena: &Hato, h: Handle) -> u16 {
    let r = arena.get(h);
    assert_eq!(r.vtable, U16_SHAPE.vtable);
    u16::from_ne_bytes(r.data.try_into().unwrap())
}

fn read_u8(arena: &Hato, h: Handle) -> u8 {
    let r = arena.get(h);
    assert_eq!(r.vtable, U8_SHAPE.vtable);
    r.data[0]
}

#[test]
fn base() {
    let mut arena = Hato::default();

    let x = arena.push(I32_SHAPE, unscrupulous::as_slice_of_bytes(&9_i32));
    let y = arena.push(U16_SHAPE, unscrupulous::as_slice_of_bytes(&5_u16));

    assert_eq!(format!("{:?}", read_i32(&arena, x)), "9");
    assert_eq!(format!("{:?}", read_u16(&arena, y)), "5");
}

#[test]
fn round_trip_after_push() {
    let mut arena = Hato::default();
    let h = arena.push(I32_SHAPE, &(-123456_i32).to_ne_bytes());
    assert_eq!(read_i32(&arena, h), -123456);

    let h2 = arena.push(U64_SHAPE, &u64::MAX.to_ne_bytes());
    let r = arena.get(h2);
    assert_eq!(r.vtable, U64_SHAPE.vtable);
    assert_eq!(u64::from_ne_bytes(r.data.try_into().unwrap()), u64::MAX);
}

#[test]
fn multi_shape_isolation() {
    let mut arena = Hato::default();
    let mut i32_handles = Vec::new();
    let mut u16_handles = Vec::new();

    // Interleave insertions of two shapes.
    for k in 0..50 {
        i32_handles.push(arena.push(I32_SHAPE, &(k as i32 * 7).to_ne_bytes()));
        u16_handles.push(arena.push(U16_SHAPE, &(k as u16 * 3).to_ne_bytes()));
    }

    // Each shape's arena observed none of the other shape's bytes.
    for (k, h) in i32_handles.iter().enumerate() {
        assert_eq!(read_i32(&arena, *h), k as i32 * 7);
    }
    for (k, h) in u16_handles.iter().enumerate() {
        assert_eq!(read_u16(&arena, *h), k as u16 * 3);
    }
    assert_eq!(arena.arena_count(), 2);
}

#[test]
fn slot_reuse_aba() {
    // The documented ABA behavior: a stale handle resolves first to the
    // inert old bytes, then to the slot's new occupant.
    let mut arena = Hato::default();

    let x = arena.push(U8_SHAPE, &[5_u8]);
    arena.remove(x);

    // The slot is only recycled, never cleared: the handle still reads 5.
    assert_eq!(format!("{:?}", read_u8(&arena, x)), "5");

    // The next insertion of the same shape reuses the freed slot.
    let y = arena.push(U8_SHAPE, &[9_u8]);
    assert_eq!(y, x);

    // The stale handle now observes the new occupant.
    assert_eq!(format!("{:?}", read_u8(&arena, x)), "9");
}

#[test]
fn slot_reuse_is_lifo() {
    let mut arena = Hato::default();
    let a = arena.push(U8_SHAPE, &[1_u8]);
    let b = arena.push(U8_SHAPE, &[2_u8]);
    let c = arena.push(U8_SHAPE, &[3_u8]);

    arena.remove(a);
    arena.remove(c);

    // Most recently freed first: c's slot, then a's.
    let d = arena.push(U8_SHAPE, &[40_u8]);
    assert_eq!(d, c);
    let e = arena.push(U8_SHAPE, &[50_u8]);
    assert_eq!(e, a);

    assert_eq!(read_u8(&arena, b), 2);
    assert_eq!(read_u8(&arena, d), 40);
    assert_eq!(read_u8(&arena, e), 50);
}

#[test]
fn stability_across_growth() {
    let mut arena = Hato::default();
    let mut handles = Vec::new();

    // Enough same-shape values to force the byte buffer through many
    // growth events.
    for k in 0..2000_u64 {
        handles.push(arena.push(U64_SHAPE, &(k * k).to_ne_bytes()));
    }

    // Every previously issued handle still resolves to its value.
    for (k, h) in handles.iter().enumerate() {
        let r = arena.get(*h);
        let v = u64::from_ne_bytes(r.data.try_into().unwrap());
        assert_eq!(v, (k as u64) * (k as u64));
    }
}

#[test]
fn clone_independence() {
    let mut arena = Hato::default();
    let a = arena.push(I32_SHAPE, &11_i32.to_ne_bytes());
    let b = arena.push(U8_SHAPE, &[22_u8]);

    let snapshot = arena.clone();

    // Mutate the original in every way: overwrite, remove, reinsert.
    let (_, data) = arena.get_mut(a);
    data.copy_from_slice(&(-1_i32).to_ne_bytes());
    arena.remove(b);
    arena.push(U8_SHAPE, &[99_u8]);
    arena.push(U16_SHAPE, &7_u16.to_ne_bytes());

    // The clone's previously resolved values are unaffected.
    assert_eq!(read_i32(&snapshot, a), 11);
    assert_eq!(read_u8(&snapshot, b), 22);
    assert_eq!(snapshot.arena_count(), 2);

    // And the original saw its own mutations.
    assert_eq!(read_i32(&arena, a), -1);
    assert_eq!(read_u8(&arena, b), 99);
}

#[test]
fn capacity_rollover_opens_new_arena() {
    // Offset bound shrunk so one arena fits exactly two 2-byte values:
    // after the second push its length (4) passes the bound (3).
    let mut arena = Hato::with_bounds(u32::MAX, 3);

    let a = arena.push(U16_SHAPE, &100_u16.to_ne_bytes());
    let b = arena.push(U16_SHAPE, &200_u16.to_ne_bytes());
    assert_eq!(arena.arena_count(), 1);

    // The third value of the same shape opens a second arena rather
    // than growing the full one past its bound.
    let c = arena.push(U16_SHAPE, &300_u16.to_ne_bytes());
    assert_eq!(arena.arena_count(), 2);
    assert_eq!(c, Handle { index: 1, offset: 0 });

    assert_eq!(read_u16(&arena, a), 100);
    assert_eq!(read_u16(&arena, b), 200);
    assert_eq!(read_u16(&arena, c), 300);
}

#[test]
fn exhausted_bounds_are_detected() {
    // One arena index (0) and room for a single 2-byte value per arena.
    let mut arena = Hato::with_bounds(0, 1);
    assert!(arena.can_insert(U16_SHAPE));
    arena.push(U16_SHAPE, &1_u16.to_ne_bytes());

    // The only allowed arena is full and no further index may be
    // issued: an insertion now would be the fatal capacity-exhaustion
    // case, which callers must detect beforehand.
    assert!(!arena.can_insert(U16_SHAPE));
}

#[test]
fn get_mut_writes_through() {
    let mut arena = Hato::default();
    let h = arena.push(I32_SHAPE, &1_i32.to_ne_bytes());

    let (vtable, data) = arena.get_mut(h);
    assert_eq!(vtable, I32_SHAPE.vtable);
    assert_eq!(i32::from_ne_bytes((&*data).try_into().unwrap()), 1);
    data.copy_from_slice(&42_i32.to_ne_bytes());

    assert_eq!(read_i32(&arena, h), 42);
}

#[test]
fn handles_order_lexicographically() {
    let mut arena = Hato::with_bounds(u32::MAX, 3);
    let a = arena.push(U16_SHAPE, &1_u16.to_ne_bytes());
    let b = arena.push(U16_SHAPE, &2_u16.to_ne_bytes());
    let c = arena.push(U16_SHAPE, &3_u16.to_ne_bytes());
    let d = arena.push(U8_SHAPE, &[4_u8]);

    // (index, offset) pairs: a=(0,0), b=(0,2), c=(1,0), d=(2,0).
    let mut handles = vec![d, c, b, a];
    handles.sort();
    assert_eq!(handles, vec![a, b, c, d]);
    assert!(a < b && b < c && c < d);
}
