use genalloc::{Allocator, Error, Handle};
use std::cmp::Ordering;

#[test]
fn null_handle_has_no_index() {
    let h = Handle::new();
    assert_eq!(h.get_index(), None);
    assert_eq!(h.get_generation(), 0);
}

#[test]
fn null_handle_is_never_valid() {
    let mut a: Allocator<u64> = Allocator::new(None);
    let _ = a.create().unwrap();
    let null = Handle::new();
    assert!(!a.contains(&null));
    assert_eq!(a.get(&null), Err(Error::StaleOrInvalidHandle));
    assert_eq!(a.remove(&null), Err(Error::StaleOrInvalidHandle));
}

#[test]
fn equality_needs_both_fields() {
    let a = Handle { position: 1, generation: 0 };
    let b = Handle { position: 1, generation: 0 };
    let c = Handle { position: 1, generation: 1 };
    let d = Handle { position: 2, generation: 0 };
    assert_eq!(a, b);
    assert_ne!(a, c);
    assert_ne!(a, d);
}

#[test]
fn ordering_goes_by_position_alone() {
    let low = Handle { position: 1, generation: 7 };
    let high = Handle { position: 2, generation: 0 };
    assert!(low < high);
    assert!(high > low);
    assert_eq!(low.partial_cmp(&high), Some(Ordering::Less));
    // Same position compares equal under the order even when the
    // generations differ, though `==` still distinguishes them.
    let older = Handle { position: 1, generation: 0 };
    assert_eq!(low.partial_cmp(&older), Some(Ordering::Equal));
    assert_ne!(low, older);
}

#[test]
fn copied_handles_refer_to_the_same_object() {
    let mut a: Allocator<u64> = Allocator::new(None);
    let h = a.create().unwrap();
    let copy = h;
    *a.get_mut(&h).unwrap() = 5;
    assert_eq!(a.get(&copy), Ok(&5));
    assert_eq!(h, copy);
}

#[test]
fn handles_sort_by_position() {
    let mut a: Allocator<u64> = Allocator::new(None);
    let h1 = a.create().unwrap();
    let h2 = a.create().unwrap();
    let h3 = a.create().unwrap();
    let mut hs = vec![h3, h1, h2];
    hs.sort_by(|x, y| x.partial_cmp(y).unwrap());
    assert_eq!(hs, vec![h1, h2, h3]);
}
