use scell::unchecked::{SCell, Store};
use std::cmp::Ordering;

/// A value whose equality and ordering must never be consulted: comparing
/// it panics. Used to show that same-slot comparisons short-circuit without
/// inspecting the value.
struct Opaque(i32);

impl PartialEq for Opaque {
    fn eq(&self, _: &Opaque) -> bool {
        panic!("value comparison must not run for handles to the same slot");
    }
}

impl PartialOrd for Opaque {
    fn partial_cmp(&self, _: &Opaque) -> Option<Ordering> {
        panic!("value comparison must not run for handles to the same slot");
    }
}

#[test]
fn unchecked_wrap_then_read_yields_value() {
    let mut store = Store::<i32>::new();
    let a = SCell::new(&mut store, 5);
    let view = a.borrow();
    assert_eq!(*view.read(&store), 5);
}

#[test]
fn unchecked_wrap_via_store_is_new() {
    let mut store = Store::<i32>::new();
    let a = store.wrap(41);
    assert_eq!(*a.borrow().read(&store), 41);
}

#[test]
fn unchecked_clone_shares_mutation() {
    // Wrap 5 into handle A; clone A into B; write 7 through A; B observes 7.
    let mut store = Store::<i32>::new();
    let a = SCell::new(&mut store, 5);
    let b = a.clone_handle(&mut store);
    let w = a.borrow_mut();
    w.write(&mut store, 7);
    let r = b.borrow();
    assert_eq!(*r.read(&store), 7);
}

#[test]
fn unchecked_acquisitions_always_succeed() {
    // No aliasing state exists: acquiring views never fails, and views need
    // not be released.
    let mut store = Store::<i32>::new();
    let a = SCell::new(&mut store, 1);
    let r1 = a.borrow();
    let r2 = a.borrow();
    let w = a.borrow_mut();
    assert_eq!(*r1.read(&store), 1);
    assert_eq!(*r2.read(&store), 1);
    w.write(&mut store, 2);
    let r3 = a.borrow();
    assert_eq!(*r3.read(&store), 2);
}

#[test]
fn unchecked_same_slot_equality_without_value_comparison() {
    let mut store = Store::<Opaque>::new();
    let a = SCell::new(&mut store, Opaque(3));
    let b = a.clone_handle(&mut store);
    assert!(a.same_slot(&b));
    assert!(a.eq(&b, &store));
    assert!(!a.ne(&b, &store));
    assert!(!a.lt(&b, &store));
    assert!(a.le(&b, &store));
    assert!(!a.gt(&b, &store));
    assert!(a.ge(&b, &store));
    assert_eq!(a.partial_cmp(&b, &store), Some(Ordering::Equal));
}

#[test]
fn unchecked_distinct_slots_equal_values_compare_equal() {
    let mut store = Store::<i32>::new();
    let a = SCell::new(&mut store, 5);
    let b = SCell::new(&mut store, 5);
    assert!(!a.same_slot(&b));
    assert!(a.eq(&b, &store));
    assert!(!a.ne(&b, &store));
}

#[test]
fn unchecked_distinct_slots_ordering_compares_values() {
    let mut store = Store::<i32>::new();
    let a = SCell::new(&mut store, 5);
    let b = SCell::new(&mut store, 6);
    assert!(!a.eq(&b, &store));
    assert!(a.ne(&b, &store));
    assert!(a.lt(&b, &store));
    assert!(a.le(&b, &store));
    assert!(!a.gt(&b, &store));
    assert!(!a.ge(&b, &store));
    assert_eq!(a.partial_cmp(&b, &store), Some(Ordering::Less));
    assert_eq!(a.cmp(&b, &store), Ordering::Less);
    assert_eq!(b.cmp(&a, &store), Ordering::Greater);
    assert_eq!(a.cmp(&a, &store), Ordering::Equal);
}

#[test]
fn unchecked_roundtrip_without_write_preserves_value() {
    let mut store = Store::<i32>::new();
    let a = SCell::new(&mut store, 12);
    let b = a.clone_handle(&mut store);
    let c = b.clone_handle(&mut store);
    for _ in 0..3 {
        assert_eq!(*c.borrow().read(&store), 12);
    }
    c.release(&mut store);
    assert_eq!(*a.borrow().read(&store), 12);
    b.release(&mut store);
    assert_eq!(*a.borrow().read(&store), 12);
}

#[test]
fn unchecked_write_view_reads_and_writes() {
    let mut store = Store::<i32>::new();
    let a = SCell::new(&mut store, 1);
    let w = a.borrow_mut();
    assert_eq!(*w.read(&store), 1);
    w.write(&mut store, 2);
    assert_eq!(*w.read(&store), 2);
    w.write(&mut store, 3);
    assert_eq!(*a.borrow().read(&store), 3);
}

#[test]
fn unchecked_surplus_handle_release_keeps_slot() {
    let mut store = Store::<i32>::new();
    let a = SCell::new(&mut store, 8);
    let b = a.clone_handle(&mut store);
    a.release(&mut store);
    assert_eq!(*b.borrow().read(&store), 8);
    b.release(&mut store);
}

#[test]
fn unchecked_string_values_compare_through_views() {
    let mut store = Store::<String>::new();
    let a = SCell::new(&mut store, String::from("left"));
    let b = SCell::new(&mut store, String::from("left"));
    assert!(a.eq(&b, &store));
    let w = b.borrow_mut();
    w.write(&mut store, String::from("right"));
    assert!(a.ne(&b, &store));
    assert!(a.lt(&b, &store));
}
