use genalloc::{Allocator, Error, Handle};

#[test]
fn fresh_allocator_is_empty() {
    let a: Allocator<u64> = Allocator::new(None);
    assert_eq!(a.len(), 0);
    assert_eq!(a.capacity(), None);
}

#[test]
fn bounded_allocator_reports_capacity() {
    let a: Allocator<u64> = Allocator::new(Some(8));
    assert_eq!(a.capacity(), Some(8));
}

#[test]
fn created_handle_gets_successfully() {
    let mut a: Allocator<u64> = Allocator::new(None);
    let h = a.create().unwrap();
    assert!(a.contains(&h));
    assert_eq!(a.get(&h), Ok(&0));
}

#[test]
fn create_stores_default_value() {
    let mut a: Allocator<String> = Allocator::new(None);
    let h = a.create().unwrap();
    assert_eq!(a.get(&h), Ok(&String::new()));
}

#[test]
fn every_created_handle_is_live_after_mixed_operations() {
    let mut a: Allocator<u64> = Allocator::new(None);
    let mut handles = Vec::new();
    for _ in 0..10 {
        let h = a.create().unwrap();
        assert!(a.get(&h).is_ok());
        handles.push(h);
    }
    let h3 = handles[3];
    let h7 = handles[7];
    assert_eq!(a.remove(&h3), Ok(()));
    assert_eq!(a.remove(&h7), Ok(()));
    for (i, h) in handles.iter().enumerate() {
        if i == 3 || i == 7 {
            assert_eq!(a.get(h), Err(Error::StaleOrInvalidHandle));
        } else {
            assert!(a.get(h).is_ok());
        }
    }
}

#[test]
fn removed_handle_fails_get_and_second_remove() {
    let mut a: Allocator<u64> = Allocator::new(None);
    let h = a.create().unwrap();
    let copy = h;
    assert_eq!(a.remove(&h), Ok(()));
    assert_eq!(a.get(&copy), Err(Error::StaleOrInvalidHandle));
    assert_eq!(a.remove(&copy), Err(Error::StaleOrInvalidHandle));
    // Later creations do not resurrect it.
    let _ = a.create().unwrap();
    let _ = a.create().unwrap();
    assert_eq!(a.get(&copy), Err(Error::StaleOrInvalidHandle));
    assert_eq!(a.remove(&copy), Err(Error::StaleOrInvalidHandle));
    assert!(!a.contains(&copy));
}

#[test]
fn reuse_does_not_revive_old_handle() {
    let mut a: Allocator<u64> = Allocator::new(None);
    let old = a.create().unwrap();
    assert_eq!(a.remove(&old), Ok(()));
    let new = a.create().unwrap();
    // The freed position is reused...
    assert_eq!(new.get_index(), old.get_index());
    // ...but under a different generation, so the old handle stays dead.
    assert_ne!(new.get_generation(), old.get_generation());
    assert_ne!(new, old);
    assert_eq!(a.get(&old), Err(Error::StaleOrInvalidHandle));
    assert_eq!(a.remove(&old), Err(Error::StaleOrInvalidHandle));
    assert!(a.get(&new).is_ok());
}

#[test]
fn len_counts_creates_minus_removes() {
    let mut a: Allocator<u64> = Allocator::new(None);
    let h1 = a.create().unwrap();
    assert_eq!(a.len(), 1);
    let h2 = a.create().unwrap();
    let h3 = a.create().unwrap();
    assert_eq!(a.len(), 3);
    assert_eq!(a.remove(&h2), Ok(()));
    assert_eq!(a.len(), 2);
    // A failed remove does not change the count.
    assert_eq!(a.remove(&h2), Err(Error::StaleOrInvalidHandle));
    assert_eq!(a.len(), 2);
    let h4 = a.create().unwrap();
    assert_eq!(a.len(), 3);
    assert_eq!(a.remove(&h1), Ok(()));
    assert_eq!(a.remove(&h3), Ok(()));
    assert_eq!(a.remove(&h4), Ok(()));
    assert_eq!(a.len(), 0);
}

#[test]
fn capacity_exceeded_changes_nothing() {
    let mut a: Allocator<u64> = Allocator::new(Some(2));
    let h1 = a.create().unwrap();
    let h2 = a.create().unwrap();
    assert_eq!(a.create(), Err(Error::CapacityExceeded));
    assert_eq!(a.len(), 2);
    assert!(a.contains(&h1));
    assert!(a.contains(&h2));
    // Freeing a position makes creation possible again without growing the
    // table past its bound.
    assert_eq!(a.remove(&h1), Ok(()));
    assert!(a.create().is_ok());
    assert_eq!(a.create(), Err(Error::CapacityExceeded));
}

#[test]
fn zero_capacity_refuses_every_create() {
    let mut a: Allocator<u64> = Allocator::new(Some(0));
    assert_eq!(a.create(), Err(Error::CapacityExceeded));
    assert_eq!(a.len(), 0);
}

#[test]
fn example_trace() {
    let mut a: Allocator<u64> = Allocator::new(Some(2));
    let ha = a.create().unwrap();
    assert_eq!(ha.get_index(), Some(1));
    assert_eq!(ha.get_generation(), 0);
    let hb = a.create().unwrap();
    assert_eq!(hb.get_index(), Some(2));
    assert_eq!(hb.get_generation(), 0);
    assert_eq!(a.create(), Err(Error::CapacityExceeded));
    assert_eq!(a.remove(&ha), Ok(()));
    let hc = a.create().unwrap();
    assert_eq!(hc.get_index(), Some(1));
    assert_eq!(hc.get_generation(), 1);
    assert_eq!(a.get(&ha), Err(Error::StaleOrInvalidHandle));
    assert!(a.get(&hc).is_ok());
}

#[test]
fn freed_positions_are_reused_lifo() {
    let mut a: Allocator<u64> = Allocator::new(None);
    let h1 = a.create().unwrap();
    let h2 = a.create().unwrap();
    let _h3 = a.create().unwrap();
    assert_eq!(a.remove(&h1), Ok(()));
    assert_eq!(a.remove(&h2), Ok(()));
    // h2's position was freed last, so it comes back first.
    let r1 = a.create().unwrap();
    assert_eq!(r1.get_index(), h2.get_index());
    let r2 = a.create().unwrap();
    assert_eq!(r2.get_index(), h1.get_index());
}

#[test]
fn get_mut_updates_the_object() {
    let mut a: Allocator<u64> = Allocator::new(None);
    let h = a.create().unwrap();
    {
        let v = a.get_mut(&h).unwrap();
        *v = 42;
    }
    assert_eq!(a.get(&h), Ok(&42));
    assert_eq!(a.len(), 1);
    assert!(a.contains(&h));
}

#[test]
fn get_mut_fails_on_stale_handle() {
    let mut a: Allocator<u64> = Allocator::new(None);
    let h = a.create().unwrap();
    assert_eq!(a.remove(&h), Ok(()));
    assert_eq!(a.get_mut(&h), Err(Error::StaleOrInvalidHandle));
}

#[test]
fn forged_position_beyond_table_is_invalid() {
    let mut a: Allocator<u64> = Allocator::new(None);
    let real = a.create().unwrap();
    let forged = Handle { position: 99, generation: 0 };
    assert!(!a.contains(&forged));
    assert_eq!(a.get(&forged), Err(Error::StaleOrInvalidHandle));
    assert_eq!(a.remove(&forged), Err(Error::StaleOrInvalidHandle));
    assert!(a.contains(&real));
}

#[test]
fn unbounded_allocator_keeps_growing() {
    let mut a: Allocator<u64> = Allocator::new(None);
    for i in 0..1000 {
        let h = a.create().unwrap();
        assert_eq!(h.get_index(), Some(i + 1));
    }
    assert_eq!(a.len(), 1000);
}
