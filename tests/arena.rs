use bevy_color_blindness::{Arena, Handle};

#[test]
fn stale_handle_does_not_resolve_after_reuse() {
    let mut a: Arena<u32> = Arena::new();
    let first = a.add(1);
    assert_eq!(a.get(first), Some(&1));
    assert_eq!(a.remove(first), Some(1));
    assert_eq!(a.get(first), None);
    let second = a.add(2);
    assert_eq!(second.index, first.index);
    assert_ne!(second.generation, first.generation);
    assert_eq!(a.get(first), None);
    assert_eq!(a.get(second), Some(&2));
    assert_eq!(a.remove(first), None);
}

#[test]
fn handles_out_of_range_do_not_resolve() {
    let mut a: Arena<u32> = Arena::new();
    let h = a.add(5);
    a.replace(h, 6);
    assert_eq!(a.get(h), Some(&6));
    assert_eq!(a.get(Handle { index: 3, generation: 0 }), None);
}
