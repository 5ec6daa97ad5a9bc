use scell::checked::{AliasingViolation, SCell, Store};
use std::cmp::Ordering;

/// A value whose equality and ordering must never be consulted: comparing
/// it panics. Used to show that same-slot comparisons short-circuit without
/// inspecting the value.
struct Opaque(i32);

impl PartialEq for Opaque {
    fn eq(&self, _: &Opaque) -> bool {
        panic!("value comparison must not run for handles to the same slot");
    }
}

impl PartialOrd for Opaque {
    fn partial_cmp(&self, _: &Opaque) -> Option<Ordering> {
        panic!("value comparison must not run for handles to the same slot");
    }
}

#[test]
fn wrap_then_read_yields_value() {
    let mut store = Store::<i32>::new();
    let a = SCell::new(&mut store, 5);
    let view = a.borrow(&mut store).unwrap();
    assert_eq!(*view.read(&store), 5);
    view.release(&mut store);
}

#[test]
fn wrap_via_store_is_new() {
    let mut store = Store::<i32>::new();
    let a = store.wrap(41);
    let view = a.borrow(&mut store).unwrap();
    assert_eq!(*view.read(&store), 41);
    view.release(&mut store);
}

#[test]
fn clone_shares_mutation() {
    // Wrap 5 into handle A; clone A into B; write 7 through A; B observes 7.
    let mut store = Store::<i32>::new();
    let a = SCell::new(&mut store, 5);
    let b = a.clone_handle(&mut store);
    let w = a.borrow_mut(&mut store).unwrap();
    w.write(&mut store, 7);
    w.release(&mut store);
    let r = b.borrow(&mut store).unwrap();
    assert_eq!(*r.read(&store), 7);
    r.release(&mut store);
}

#[test]
fn write_while_read_fails() {
    let mut store = Store::<i32>::new();
    let a = SCell::new(&mut store, 1);
    let r = a.borrow(&mut store).unwrap();
    assert!(matches!(a.borrow_mut(&mut store), Err(AliasingViolation)));
    r.release(&mut store);
}

#[test]
fn second_read_succeeds() {
    let mut store = Store::<i32>::new();
    let a = SCell::new(&mut store, 1);
    let r1 = a.borrow(&mut store).unwrap();
    let r2 = a.borrow(&mut store).unwrap();
    assert_eq!(*r1.read(&store), 1);
    assert_eq!(*r2.read(&store), 1);
    r2.release(&mut store);
    r1.release(&mut store);
}

#[test]
fn write_while_write_fails() {
    let mut store = Store::<i32>::new();
    let a = SCell::new(&mut store, 1);
    let w = a.borrow_mut(&mut store).unwrap();
    assert!(matches!(a.borrow_mut(&mut store), Err(AliasingViolation)));
    w.release(&mut store);
}

#[test]
fn read_while_write_fails() {
    let mut store = Store::<i32>::new();
    let a = SCell::new(&mut store, 1);
    let w = a.borrow_mut(&mut store).unwrap();
    assert!(matches!(a.borrow(&mut store), Err(AliasingViolation)));
    w.release(&mut store);
}

#[test]
fn release_returns_slot_to_unborrowed() {
    // Two read views, released in turn: afterwards a write view succeeds.
    let mut store = Store::<i32>::new();
    let a = SCell::new(&mut store, 1);
    let r1 = a.borrow(&mut store).unwrap();
    let r2 = a.borrow(&mut store).unwrap();
    r1.release(&mut store);
    assert!(matches!(a.borrow_mut(&mut store), Err(AliasingViolation)));
    r2.release(&mut store);
    let w = a.borrow_mut(&mut store).unwrap();
    w.release(&mut store);
    // A released write view likewise leaves the slot fully available.
    let r3 = a.borrow(&mut store).unwrap();
    r3.release(&mut store);
}

#[test]
fn read_then_write_after_release() {
    // Acquire read view on A; a write view fails while it is held; drop the
    // read view; the write view now succeeds.
    let mut store = Store::<i32>::new();
    let a = SCell::new(&mut store, 9);
    let r = a.borrow(&mut store).unwrap();
    assert!(matches!(a.borrow_mut(&mut store), Err(AliasingViolation)));
    r.release(&mut store);
    let w = a.borrow_mut(&mut store).unwrap();
    w.write(&mut store, 10);
    w.release(&mut store);
    let r2 = a.borrow(&mut store).unwrap();
    assert_eq!(*r2.read(&store), 10);
    r2.release(&mut store);
}

#[test]
fn same_slot_equality_without_value_comparison() {
    let mut store = Store::<Opaque>::new();
    let a = SCell::new(&mut store, Opaque(3));
    let b = a.clone_handle(&mut store);
    assert!(a.same_slot(&b));
    assert!(a.eq(&b, &store));
    assert!(!a.ne(&b, &store));
    assert!(!a.lt(&b, &store));
    assert!(a.le(&b, &store));
    assert!(!a.gt(&b, &store));
    assert!(a.ge(&b, &store));
    assert_eq!(a.partial_cmp(&b, &store), Some(Ordering::Equal));
}

#[test]
fn distinct_slots_equal_values_compare_equal() {
    let mut store = Store::<i32>::new();
    let a = SCell::new(&mut store, 5);
    let b = SCell::new(&mut store, 5);
    assert!(!a.same_slot(&b));
    assert!(a.eq(&b, &store));
    assert!(!a.ne(&b, &store));
}

#[test]
fn distinct_slots_ordering_compares_values() {
    let mut store = Store::<i32>::new();
    let a = SCell::new(&mut store, 5);
    let b = SCell::new(&mut store, 6);
    assert!(!a.eq(&b, &store));
    assert!(a.ne(&b, &store));
    assert!(a.lt(&b, &store));
    assert!(a.le(&b, &store));
    assert!(!a.gt(&b, &store));
    assert!(!a.ge(&b, &store));
    assert_eq!(a.partial_cmp(&b, &store), Some(Ordering::Less));
    assert_eq!(a.cmp(&b, &store), Ordering::Less);
    assert_eq!(b.cmp(&a, &store), Ordering::Greater);
    assert_eq!(a.cmp(&a, &store), Ordering::Equal);
}

#[test]
fn roundtrip_without_write_preserves_value() {
    let mut store = Store::<i32>::new();
    let a = SCell::new(&mut store, 12);
    let b = a.clone_handle(&mut store);
    let c = b.clone_handle(&mut store);
    for _ in 0..3 {
        let r = c.borrow(&mut store).unwrap();
        assert_eq!(*r.read(&store), 12);
        r.release(&mut store);
    }
    c.release(&mut store);
    let r = a.borrow(&mut store).unwrap();
    assert_eq!(*r.read(&store), 12);
    r.release(&mut store);
    b.release(&mut store);
    let r = a.borrow(&mut store).unwrap();
    assert_eq!(*r.read(&store), 12);
    r.release(&mut store);
}

#[test]
fn write_view_reads_and_writes() {
    let mut store = Store::<i32>::new();
    let a = SCell::new(&mut store, 1);
    let w = a.borrow_mut(&mut store).unwrap();
    assert_eq!(*w.read(&store), 1);
    w.write(&mut store, 2);
    assert_eq!(*w.read(&store), 2);
    w.write(&mut store, 3);
    w.release(&mut store);
    let r = a.borrow(&mut store).unwrap();
    assert_eq!(*r.read(&store), 3);
    r.release(&mut store);
}

#[test]
fn surplus_handle_release_keeps_slot() {
    let mut store = Store::<i32>::new();
    let a = SCell::new(&mut store, 8);
    let b = a.clone_handle(&mut store);
    a.release(&mut store);
    let r = b.borrow(&mut store).unwrap();
    assert_eq!(*r.read(&store), 8);
    r.release(&mut store);
    b.release(&mut store);
}

#[test]
fn string_values_compare_through_views() {
    let mut store = Store::<String>::new();
    let a = SCell::new(&mut store, String::from("left"));
    let b = SCell::new(&mut store, String::from("left"));
    assert!(a.eq(&b, &store));
    let w = b.borrow_mut(&mut store).unwrap();
    w.write(&mut store, String::from("right"));
    w.release(&mut store);
    assert!(a.ne(&b, &store));
    assert!(a.lt(&b, &store));
}
