use hato::{Arena, Shape};

const PAIR_SHAPE: Shape = Shape { vtable: 7, size: 2, align: 2 };

#[test]
fn arena_appends_densely() {
    let mut arena = Arena::new(PAIR_SHAPE, u32::MAX);
    assert!(!arena.is_full());
    assert!(arena.matches(PAIR_SHAPE));
    assert_eq!(arena.vtable(), 7);

    // With no freed slot, values are packed back to back.
    let a = arena.push(&[1, 2]);
    let b = arena.push(&[3, 4]);
    let c = arena.push(&[5, 6]);
    assert_eq!((a, b, c), (0, 2, 4));
    assert_eq!(arena.len_bytes(), 6);

    assert_eq!(arena.get(a), &[1, 2]);
    assert_eq!(arena.get(b), &[3, 4]);
    assert_eq!(arena.get(c), &[5, 6]);
}

#[test]
fn arena_recycles_most_recent_slot() {
    let mut arena = Arena::new(PAIR_SHAPE, u32::MAX);
    let a = arena.push(&[1, 1]);
    let b = arena.push(&[2, 2]);
    assert_eq!(arena.free_slots(), 0);

    arena.remove(a);
    arena.remove(b);
    assert_eq!(arena.free_slots(), 2);

    // Reuse overwrites in place: the buffer does not grow.
    let c = arena.push(&[9, 9]);
    assert_eq!(c, b);
    assert_eq!(arena.len_bytes(), 4);
    assert_eq!(arena.get(c), &[9, 9]);
    assert_eq!(arena.get(a), &[1, 1]);
}

#[test]
fn arena_get_mut_overwrites_one_slot() {
    let mut arena = Arena::new(PAIR_SHAPE, u32::MAX);
    let a = arena.push(&[1, 1]);
    let b = arena.push(&[2, 2]);

    let slot = arena.get_mut(a);
    assert_eq!(slot, &[1, 1]);
    slot[0] = 8;
    slot[1] = 9;

    assert_eq!(arena.get(a), &[8, 9]);
    assert_eq!(arena.get(b), &[2, 2]);
}

#[test]
fn arena_clone_is_deep() {
    let mut arena = Arena::new(PAIR_SHAPE, u32::MAX);
    let a = arena.push(&[1, 1]);
    let copy = arena.clone();

    let slot = arena.get_mut(a);
    slot.copy_from_slice(&[7, 7]);

    assert_eq!(copy.get(a), &[1, 1]);
    assert_eq!(arena.get(a), &[7, 7]);
}

#[test]
fn arena_full_at_bound() {
    // Bound 3: a third 2-byte value would start past offset 3.
    let mut arena = Arena::new(PAIR_SHAPE, 3);
    arena.push(&[1, 1]);
    assert!(!arena.is_full());
    arena.push(&[2, 2]);
    assert!(arena.is_full());
}
