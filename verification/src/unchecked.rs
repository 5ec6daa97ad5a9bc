//! The unchecked strategy: no aliasing state is tracked, and acquiring a
//! view always succeeds immediately. The caller alone is responsible for
//! never holding overlapping read-and-write or write-and-write views on one
//! slot; this module performs no validation in exchange for zero tracking
//! overhead.

use vstd::prelude::*;

verus! {

use core::cmp::Ordering;
use vstd::pervasive::unreached;
use vstd::std_specs::cmp::{OrdSpec, PartialEqSpec, PartialOrdSpec};

/// One slot: a value and the number of handles that currently reference it.
/// No aliasing state exists in this strategy.
pub struct Slot<T> {
    pub value: T,
    pub refs: u64,
}

/// Holds every slot that has been created. A freed slot (one whose last
/// handle was released) stays in place as `None`, so the indices held by
/// live handles never move.
pub struct Store<T> {
    slots: Vec<Option<Slot<T>>>,
}

impl<T> View for Store<T> {
    type V = Seq<Option<Slot<T>>>;

    closed spec fn view(&self) -> Seq<Option<Slot<T>>> {
        self.slots@
    }
}

/// A handle to one slot of a [`Store`]. Cloning a handle (see
/// [`SCell::clone_handle`]) yields a second handle to the same slot.
pub struct SCell {
    idx: usize,
}

/// A read view on a slot. Nothing tracks that it is outstanding.
pub struct Ref {
    idx: usize,
}

/// A write view on a slot. Nothing tracks that it is outstanding.
pub struct RefMut {
    idx: usize,
}

impl SCell {
    /// The index of the slot this handle references.
    pub closed spec fn id(&self) -> int {
        self.idx as int
    }
}

impl Ref {
    /// The index of the slot this view refers to.
    pub closed spec fn id(&self) -> int {
        self.idx as int
    }
}

impl RefMut {
    /// The index of the slot this view refers to.
    pub closed spec fn id(&self) -> int {
        self.idx as int
    }
}

/// Whether index `i` names a slot that exists and has not been freed.
pub open spec fn is_live<T>(s: Seq<Option<Slot<T>>>, i: int) -> bool {
    0 <= i < s.len() && s[i] is Some
}

/// The slot at index `i`.
pub open spec fn slot_at<T>(s: Seq<Option<Slot<T>>>, i: int) -> Slot<T>
    recommends
        is_live(s, i),
{
    s[i]->0
}

/// The value held by the slot at index `i`.
pub open spec fn value_at<T>(s: Seq<Option<Slot<T>>>, i: int) -> T
    recommends
        is_live(s, i),
{
    slot_at(s, i).value
}

/// The handle count of the slot at index `i`.
pub open spec fn refs_at<T>(s: Seq<Option<Slot<T>>>, i: int) -> u64
    recommends
        is_live(s, i),
{
    slot_at(s, i).refs
}

/// Well-formedness of a store: every live slot is referenced by at least
/// one handle.
pub open spec fn wf<T>(s: Seq<Option<Slot<T>>>) -> bool {
    forall|i: int| 0 <= i < s.len() ==> ((#[trigger] s[i]) matches Some(slot) ==> slot.refs >= 1)
}

/// A slot as it is first created: reference count 1.
pub open spec fn fresh_slot<T>(value: T) -> Slot<T> {
    Slot { value, refs: 1 }
}

/// The store after wrapping a value: one fresh slot appended at the end.
pub open spec fn wrapped<T>(s: Seq<Option<Slot<T>>>, value: T) -> Seq<Option<Slot<T>>> {
    s.push(Some(fresh_slot(value)))
}

/// The store after the value of slot `i` is replaced through a write view.
pub open spec fn after_write<T>(s: Seq<Option<Slot<T>>>, i: int, value: T) -> Seq<Option<Slot<T>>>
    recommends
        is_live(s, i),
{
    s.update(i, Some(Slot { value, ..slot_at(s, i) }))
}

/// The store with the reference count of slot `i` replaced.
pub open spec fn with_refs<T>(s: Seq<Option<Slot<T>>>, i: int, refs: u64) -> Seq<Option<Slot<T>>>
    recommends
        is_live(s, i),
{
    s.update(i, Some(Slot { refs, ..slot_at(s, i) }))
}

/// The store after a handle to slot `i` is cloned.
pub open spec fn after_clone<T>(s: Seq<Option<Slot<T>>>, i: int) -> Seq<Option<Slot<T>>> {
    with_refs(s, i, (refs_at(s, i) + 1) as u64)
}

/// The store after a handle to slot `i` is released: the count drops by
/// one, and the slot holding the value is freed when the count reaches zero.
pub open spec fn after_drop<T>(s: Seq<Option<Slot<T>>>, i: int) -> Seq<Option<Slot<T>>> {
    if refs_at(s, i) == 1 {
        s.update(i, None)
    } else {
        with_refs(s, i, (refs_at(s, i) - 1) as u64)
    }
}

/// Law: wrapping a value and immediately reading it through a view on the
/// new slot observes a value equal to the one wrapped. In this strategy the
/// acquisition itself cannot fail.
pub proof fn lemma_wrap_then_read<T>(s: Seq<Option<Slot<T>>>, v: T)
    requires
        wf(s),
    ensures
        ({
            let s1 = wrapped(s, v);
            let i = s.len() as int;
            &&& wf(s1)
            &&& is_live(s1, i)
            &&& value_at(s1, i) == v
        }),
{
}

/// Law: a mutation made through a write view on one handle is observable
/// through a subsequent read view on a clone of that handle, because the
/// clone references the same slot ([`SCell::clone_handle`] returns a handle
/// with the same id).
pub proof fn lemma_clone_shares_mutation<T>(s: Seq<Option<Slot<T>>>, i: int, v: T)
    requires
        wf(s),
        is_live(s, i),
        refs_at(s, i) < u64::MAX,
    ensures
        ({
            let s1 = after_write(after_clone(s, i), i, v);
            &&& wf(s1)
            &&& is_live(s1, i)
            &&& value_at(s1, i) == v
        }),
{
}

/// Law: no operation but a write through a write view changes any slot's
/// value, and a write changes the value of its own slot alone. Wrapping,
/// cloning handles and releasing surplus handles all leave every value in
/// place. (Acquiring a view does not touch the store at all in this
/// strategy: [`SCell::borrow`] and [`SCell::borrow_mut`] take no store.)
pub proof fn lemma_only_writes_mutate<T>(s: Seq<Option<Slot<T>>>, i: int, j: int, v: T, w: T)
    requires
        wf(s),
        is_live(s, i),
        is_live(s, j),
    ensures
        value_at(wrapped(s, w), j) == value_at(s, j),
        value_at(after_clone(s, i), j) == value_at(s, j),
        i != j || refs_at(s, i) > 1 ==> value_at(after_drop(s, i), j) == value_at(s, j),
        i != j ==> value_at(after_write(s, i, v), j) == value_at(s, j),
        value_at(after_write(s, i, v), i) == v,
{
}

impl<T> Store<T> {
    /// Creates an empty store with no slots.
    pub fn new() -> (s: Store<T>)
        ensures
            s@ == Seq::<Option<Slot<T>>>::empty(),
            wf(s@),
    {
        Store { slots: Vec::new() }
    }

    /// Wraps a bare value into a fresh slot, as [`SCell::new`] does; this is
    /// the conversion from a value to a handle.
    pub fn wrap(&mut self, value: T) -> (h: SCell)
        requires
            wf(old(self)@),
        ensures
            wf(final(self)@),
            final(self)@ == wrapped(old(self)@, value),
            h.id() == old(self)@.len(),
    {
        SCell::new(self, value)
    }
}

impl SCell {
    /// Allocates a new slot holding `value` with reference count 1 and
    /// returns the first handle to it. Always succeeds.
    pub fn new<T>(store: &mut Store<T>, value: T) -> (h: SCell)
        requires
            wf(old(store)@),
        ensures
            wf(final(store)@),
            final(store)@ == wrapped(old(store)@, value),
            h.id() == old(store)@.len(),
    {
        let idx = store.slots.len();
        store.slots.push(Some(Slot { value, refs: 1 }));
        SCell { idx }
    }

    /// True exactly when the two handles reference the same slot. This is
    /// reference identity, distinct from value equality.
    pub fn same_slot(&self, other: &SCell) -> (r: bool)
        ensures
            r == (self.id() == other.id()),
    {
        self.idx == other.idx
    }

    /// The slot index this handle references: the analogue of pointer
    /// identity for handles.
    pub fn slot_index(&self) -> (i: usize)
        ensures
            i as int == self.id(),
    {
        self.idx
    }

    /// Returns a second handle to the same slot, incrementing the slot's
    /// reference count. Cloning a handle is unrelated to borrowing the
    /// value.
    pub fn clone_handle<T>(&self, store: &mut Store<T>) -> (h: SCell)
        requires
            wf(old(store)@),
            is_live(old(store)@, self.id()),
            refs_at(old(store)@, self.id()) < u64::MAX,
        ensures
            wf(final(store)@),
            final(store)@ == after_clone(old(store)@, self.id()),
            h.id() == self.id(),
    {
        let slot_opt = &mut store.slots[self.idx];
        match slot_opt {
            Some(slot) => {
                slot.refs = slot.refs + 1;
            },
            None => {
                proof {
                    assert(false);
                }
            },
        }
        SCell { idx: self.idx }
    }

    /// Acquires a read view on the slot. Always succeeds immediately:
    /// nothing tracks outstanding views, so nothing can fail. The caller is
    /// responsible for not holding it alongside a write view on the same
    /// slot.
    pub fn borrow(&self) -> (r: Ref)
        ensures
            r.id() == self.id(),
    {
        Ref { idx: self.idx }
    }

    /// Acquires a write view on the slot. Always succeeds immediately:
    /// nothing tracks outstanding views, so nothing can fail. The caller is
    /// responsible for holding it exclusively.
    pub fn borrow_mut(&self) -> (r: RefMut)
        ensures
            r.id() == self.id(),
    {
        RefMut { idx: self.idx }
    }

    /// Releases this handle. The slot's reference count drops by one; when
    /// the last handle is released, the slot and the value it holds are
    /// freed.
    pub fn release<T>(self, store: &mut Store<T>)
        requires
            wf(old(store)@),
            is_live(old(store)@, self.id()),
        ensures
            wf(final(store)@),
            final(store)@ == after_drop(old(store)@, self.id()),
    {
        let refs = match &store.slots[self.idx] {
            Some(slot) => slot.refs,
            None => unreached(),
        };
        if refs == 1 {
            let slot_opt = &mut store.slots[self.idx];
            *slot_opt = None;
        } else {
            let slot_opt = &mut store.slots[self.idx];
            match slot_opt {
                Some(slot) => {
                    slot.refs = refs - 1;
                },
                None => {
                    proof {
                        assert(false);
                    }
                },
            }
        }
    }
}

impl<T> Store<T> {
    /// The value in slot `i`, read directly; used by the view reads and the
    /// comparison forwarders.
    fn value_ref(&self, i: usize) -> (r: &T)
        requires
            is_live(self@, i as int),
        ensures
            *r == value_at(self@, i as int),
    {
        match &self.slots[i] {
            Some(slot) => &slot.value,
            None => unreached(),
        }
    }
}

impl SCell {
    /// Equality forwarded to the contained values. Two handles to the same
    /// slot compare equal without inspecting the value; handles to distinct
    /// slots fall back to a full value comparison.
    pub fn eq<T: PartialEq>(&self, other: &SCell, store: &Store<T>) -> (r: bool)
        requires
            is_live(store@, self.id()),
            is_live(store@, other.id()),
        ensures
            self.id() == other.id() ==> r == true,
            self.id() != other.id() && T::obeys_eq_spec() ==> r == value_at(
                store@,
                self.id(),
            ).eq_spec(&value_at(store@, other.id())),
    {
        if self.idx == other.idx {
            true
        } else {
            let a = store.value_ref(self.idx);
            let b = store.value_ref(other.idx);
            *a == *b
        }
    }

    /// Inequality forwarded to the contained values, with the same
    /// short-circuit as [`SCell::eq`]: a handle never differs from itself.
    pub fn ne<T: PartialEq>(&self, other: &SCell, store: &Store<T>) -> (r: bool)
        requires
            is_live(store@, self.id()),
            is_live(store@, other.id()),
        ensures
            self.id() == other.id() ==> r == false,
            self.id() != other.id() && T::obeys_eq_spec() ==> r == !value_at(
                store@,
                self.id(),
            ).eq_spec(&value_at(store@, other.id())),
    {
        if self.idx == other.idx {
            false
        } else {
            let a = store.value_ref(self.idx);
            let b = store.value_ref(other.idx);
            *a != *b
        }
    }

    /// Ordering comparison forwarded to the contained values. Two handles to
    /// the same slot show no difference (`Some(Equal)`) without inspecting
    /// the value.
    pub fn partial_cmp<T: PartialOrd>(&self, other: &SCell, store: &Store<T>) -> (r: Option<
        Ordering,
    >)
        requires
            is_live(store@, self.id()),
            is_live(store@, other.id()),
        ensures
            self.id() == other.id() ==> r == Some(Ordering::Equal),
            self.id() != other.id() && T::obeys_partial_cmp_spec() ==> r == value_at(
                store@,
                self.id(),
            ).partial_cmp_spec(&value_at(store@, other.id())),
    {
        if self.idx == other.idx {
            Some(Ordering::Equal)
        } else {
            let a = store.value_ref(self.idx);
            let b = store.value_ref(other.idx);
            a.partial_cmp(b)
        }
    }

    /// Strictly-less forwarded to the contained values; a handle is never
    /// strictly less than itself.
    pub fn lt<T: PartialOrd>(&self, other: &SCell, store: &Store<T>) -> (r: bool)
        requires
            is_live(store@, self.id()),
            is_live(store@, other.id()),
        ensures
            self.id() == other.id() ==> r == false,
            self.id() != other.id() && T::obeys_partial_cmp_spec() ==> r == (value_at(
                store@,
                self.id(),
            ).partial_cmp_spec(&value_at(store@, other.id())) == Some(Ordering::Less)),
    {
        if self.idx == other.idx {
            false
        } else {
            let a = store.value_ref(self.idx);
            let b = store.value_ref(other.idx);
            a.lt(b)
        }
    }

    /// Less-or-equal forwarded to the contained values; a handle is always
    /// less-or-equal to itself.
    pub fn le<T: PartialOrd>(&self, other: &SCell, store: &Store<T>) -> (r: bool)
        requires
            is_live(store@, self.id()),
            is_live(store@, other.id()),
        ensures
            self.id() == other.id() ==> r == true,
            self.id() != other.id() && T::obeys_partial_cmp_spec() ==> r == (value_at(
                store@,
                self.id(),
            ).partial_cmp_spec(&value_at(store@, other.id())) matches Some(
                Ordering::Less
                | Ordering::Equal,
            )),
    {
        if self.idx == other.idx {
            true
        } else {
            let a = store.value_ref(self.idx);
            let b = store.value_ref(other.idx);
            a.le(b)
        }
    }

    /// Strictly-greater forwarded to the contained values; a handle is never
    /// strictly greater than itself.
    pub fn gt<T: PartialOrd>(&self, other: &SCell, store: &Store<T>) -> (r: bool)
        requires
            is_live(store@, self.id()),
            is_live(store@, other.id()),
        ensures
            self.id() == other.id() ==> r == false,
            self.id() != other.id() && T::obeys_partial_cmp_spec() ==> r == (value_at(
                store@,
                self.id(),
            ).partial_cmp_spec(&value_at(store@, other.id())) == Some(Ordering::Greater)),
    {
        if self.idx == other.idx {
            false
        } else {
            let a = store.value_ref(self.idx);
            let b = store.value_ref(other.idx);
            a.gt(b)
        }
    }

    /// Greater-or-equal forwarded to the contained values; a handle is
    /// always greater-or-equal to itself.
    pub fn ge<T: PartialOrd>(&self, other: &SCell, store: &Store<T>) -> (r: bool)
        requires
            is_live(store@, self.id()),
            is_live(store@, other.id()),
        ensures
            self.id() == other.id() ==> r == true,
            self.id() != other.id() && T::obeys_partial_cmp_spec() ==> r == (value_at(
                store@,
                self.id(),
            ).partial_cmp_spec(&value_at(store@, other.id())) matches Some(
                Ordering::Greater
                | Ordering::Equal,
            )),
    {
        if self.idx == other.idx {
            true
        } else {
            let a = store.value_ref(self.idx);
            let b = store.value_ref(other.idx);
            a.ge(b)
        }
    }

    /// Total-ordering comparison forwarded to the contained values. Two
    /// handles to the same slot compare `Equal` without inspecting the
    /// value.
    pub fn cmp<T: Ord>(&self, other: &SCell, store: &Store<T>) -> (r: Ordering)
        requires
            is_live(store@, self.id()),
            is_live(store@, other.id()),
        ensures
            self.id() == other.id() ==> r == Ordering::Equal,
            self.id() != other.id() && T::obeys_cmp_spec() ==> r == value_at(
                store@,
                self.id(),
            ).cmp_spec(&value_at(store@, other.id())),
    {
        if self.idx == other.idx {
            Ordering::Equal
        } else {
            let a = store.value_ref(self.idx);
            let b = store.value_ref(other.idx);
            a.cmp(b)
        }
    }
}

impl Ref {
    /// Reads the value this view grants access to.
    pub fn read<'a, T>(&self, store: &'a Store<T>) -> (r: &'a T)
        requires
            is_live(store@, self.id()),
        ensures
            *r == value_at(store@, self.id()),
    {
        store.value_ref(self.idx)
    }
}

impl RefMut {
    /// Reads the value this view grants access to.
    pub fn read<'a, T>(&self, store: &'a Store<T>) -> (r: &'a T)
        requires
            is_live(store@, self.id()),
        ensures
            *r == value_at(store@, self.id()),
    {
        store.value_ref(self.idx)
    }

    /// Replaces the slot's value through the write view. The mutation is
    /// observable through every handle to the slot.
    pub fn write<T>(&self, store: &mut Store<T>, value: T)
        requires
            wf(old(store)@),
            is_live(old(store)@, self.id()),
        ensures
            wf(final(store)@),
            final(store)@ == after_write(old(store)@, self.id(), value),
    {
        let slot_opt = &mut store.slots[self.idx];
        match slot_opt {
            Some(slot) => {
                slot.value = value;
            },
            None => {
                proof {
                    assert(false);
                }
            },
        }
    }
}

} // verus!
