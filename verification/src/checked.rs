//! The checked strategy: every slot carries an aliasing-state tag, and every
//! acquisition of a view is validated against that tag at run time. An
//! acquisition that would overlap an outstanding write view fails with an
//! [`AliasingViolation`] instead of handing out an aliased view.

use vstd::prelude::*;

verus! {

use core::cmp::Ordering;
use vstd::pervasive::unreached;
use vstd::std_specs::cmp::{OrdSpec, PartialEqSpec, PartialOrdSpec};

/// The aliasing state of one slot: no view outstanding, `n` concurrent read
/// views outstanding, or one exclusive write view outstanding.
#[derive(Clone, Copy, Debug, PartialEq, Eq, Structural)]
pub enum BorrowState {
    Unborrowed,
    SharedRead(u64),
    Exclusive,
}

/// The error reported when acquiring a view would overlap an outstanding
/// view in a forbidden way: any view while a write view is held, or a write
/// view while any view is held. It signals a programming error, never a
/// transient condition.
#[derive(Clone, Copy, Debug, PartialEq, Eq, Structural)]
pub struct AliasingViolation;

/// One slot: a value, the aliasing state guarding it, and the number of
/// handles that currently reference the slot.
pub struct Slot<T> {
    pub value: T,
    pub state: BorrowState,
    pub refs: u64,
}

/// Holds every slot that has been created. A freed slot (one whose last
/// handle was released) stays in place as `None`, so the indices held by
/// live handles never move.
pub struct Store<T> {
    slots: Vec<Option<Slot<T>>>,
}

impl<T> View for Store<T> {
    type V = Seq<Option<Slot<T>>>;

    closed spec fn view(&self) -> Seq<Option<Slot<T>>> {
        self.slots@
    }
}

/// A handle to one slot of a [`Store`]. Cloning a handle (see
/// [`SCell::clone_handle`]) yields a second handle to the same slot.
pub struct SCell {
    idx: usize,
}

/// A read view: while it is outstanding, the slot is in `SharedRead` state
/// and the value may be read but not written.
pub struct Ref {
    idx: usize,
}

/// A write view: while it is outstanding, the slot is in `Exclusive` state
/// and no other view can be acquired.
pub struct RefMut {
    idx: usize,
}

impl SCell {
    /// The index of the slot this handle references.
    pub closed spec fn id(&self) -> int {
        self.idx as int
    }
}

impl Ref {
    /// The index of the slot this view is outstanding against.
    pub closed spec fn id(&self) -> int {
        self.idx as int
    }
}

impl RefMut {
    /// The index of the slot this view is outstanding against.
    pub closed spec fn id(&self) -> int {
        self.idx as int
    }
}

/// Whether index `i` names a slot that exists and has not been freed.
pub open spec fn is_live<T>(s: Seq<Option<Slot<T>>>, i: int) -> bool {
    0 <= i < s.len() && s[i] is Some
}

/// The slot at index `i`.
pub open spec fn slot_at<T>(s: Seq<Option<Slot<T>>>, i: int) -> Slot<T>
    recommends
        is_live(s, i),
{
    s[i]->0
}

/// The value held by the slot at index `i`.
pub open spec fn value_at<T>(s: Seq<Option<Slot<T>>>, i: int) -> T
    recommends
        is_live(s, i),
{
    slot_at(s, i).value
}

/// The aliasing state of the slot at index `i`.
pub open spec fn state_at<T>(s: Seq<Option<Slot<T>>>, i: int) -> BorrowState
    recommends
        is_live(s, i),
{
    slot_at(s, i).state
}

/// The handle count of the slot at index `i`.
pub open spec fn refs_at<T>(s: Seq<Option<Slot<T>>>, i: int) -> u64
    recommends
        is_live(s, i),
{
    slot_at(s, i).refs
}

/// The invariant of one live slot: at least one handle references it, and a
/// `SharedRead` count is at least one.
pub open spec fn slot_inv<T>(slot: Slot<T>) -> bool {
    &&& slot.refs >= 1
    &&& slot.state matches BorrowState::SharedRead(n) ==> n >= 1
}

/// Well-formedness of a store: every live slot satisfies [`slot_inv`].
pub open spec fn wf<T>(s: Seq<Option<Slot<T>>>) -> bool {
    forall|i: int| 0 <= i < s.len() ==> ((#[trigger] s[i]) matches Some(slot) ==> slot_inv(slot))
}

/// A slot as it is first created: reference count 1, no view outstanding.
pub open spec fn fresh_slot<T>(value: T) -> Slot<T> {
    Slot { value, state: BorrowState::Unborrowed, refs: 1 }
}

/// The store after wrapping a value: one fresh slot appended at the end.
pub open spec fn wrapped<T>(s: Seq<Option<Slot<T>>>, value: T) -> Seq<Option<Slot<T>>> {
    s.push(Some(fresh_slot(value)))
}

/// Whether a read view may be acquired on slot `i`: the slot is live and no
/// write view is outstanding against it.
pub open spec fn can_acquire_read<T>(s: Seq<Option<Slot<T>>>, i: int) -> bool {
    is_live(s, i) && !(state_at(s, i) is Exclusive)
}

/// Whether a write view may be acquired on slot `i`: the slot is live and no
/// view of either kind is outstanding against it.
pub open spec fn can_acquire_write<T>(s: Seq<Option<Slot<T>>>, i: int) -> bool {
    is_live(s, i) && state_at(s, i) is Unborrowed
}

/// The aliasing state after one more read view is acquired.
pub open spec fn read_acquired(st: BorrowState) -> BorrowState
    recommends
        !(st is Exclusive),
{
    match st {
        BorrowState::Unborrowed => BorrowState::SharedRead(1),
        BorrowState::SharedRead(n) => BorrowState::SharedRead((n + 1) as u64),
        BorrowState::Exclusive => st,
    }
}

/// The aliasing state after one read view is released.
pub open spec fn read_released(st: BorrowState) -> BorrowState
    recommends
        st is SharedRead,
{
    match st {
        BorrowState::SharedRead(n) => if n == 1 {
            BorrowState::Unborrowed
        } else {
            BorrowState::SharedRead((n - 1) as u64)
        },
        _ => st,
    }
}

/// The store with the aliasing state of slot `i` replaced.
pub open spec fn with_state<T>(s: Seq<Option<Slot<T>>>, i: int, st: BorrowState) -> Seq<
    Option<Slot<T>>,
>
    recommends
        is_live(s, i),
{
    s.update(i, Some(Slot { state: st, ..slot_at(s, i) }))
}

/// The store after a read view is acquired on slot `i`.
pub open spec fn after_acquire_read<T>(s: Seq<Option<Slot<T>>>, i: int) -> Seq<Option<Slot<T>>> {
    with_state(s, i, read_acquired(state_at(s, i)))
}

/// The store after a read view on slot `i` is released.
pub open spec fn after_release_read<T>(s: Seq<Option<Slot<T>>>, i: int) -> Seq<Option<Slot<T>>> {
    with_state(s, i, read_released(state_at(s, i)))
}

/// The store after a write view is acquired on slot `i`.
pub open spec fn after_acquire_write<T>(s: Seq<Option<Slot<T>>>, i: int) -> Seq<Option<Slot<T>>> {
    with_state(s, i, BorrowState::Exclusive)
}

/// The store after the write view on slot `i` is released.
pub open spec fn after_release_write<T>(s: Seq<Option<Slot<T>>>, i: int) -> Seq<Option<Slot<T>>> {
    with_state(s, i, BorrowState::Unborrowed)
}

/// The store after the value of slot `i` is replaced through a write view.
pub open spec fn after_write<T>(s: Seq<Option<Slot<T>>>, i: int, value: T) -> Seq<Option<Slot<T>>>
    recommends
        is_live(s, i),
{
    s.update(i, Some(Slot { value, ..slot_at(s, i) }))
}

/// The store with the reference count of slot `i` replaced.
pub open spec fn with_refs<T>(s: Seq<Option<Slot<T>>>, i: int, refs: u64) -> Seq<Option<Slot<T>>>
    recommends
        is_live(s, i),
{
    s.update(i, Some(Slot { refs, ..slot_at(s, i) }))
}

/// The store after a handle to slot `i` is cloned.
pub open spec fn after_clone<T>(s: Seq<Option<Slot<T>>>, i: int) -> Seq<Option<Slot<T>>> {
    with_refs(s, i, (refs_at(s, i) + 1) as u64)
}

/// The store after a handle to slot `i` is released: the count drops by
/// one, and the slot holding the value is freed when the count reaches zero.
pub open spec fn after_drop<T>(s: Seq<Option<Slot<T>>>, i: int) -> Seq<Option<Slot<T>>> {
    if refs_at(s, i) == 1 {
        s.update(i, None)
    } else {
        with_refs(s, i, (refs_at(s, i) - 1) as u64)
    }
}

/// The store after `k` read views on slot `i` are released, one after the
/// other.
pub open spec fn after_release_reads<T>(s: Seq<Option<Slot<T>>>, i: int, k: nat) -> Seq<
    Option<Slot<T>>,
>
    decreases k,
{
    if k == 0 {
        s
    } else {
        after_release_read(after_release_reads(s, i, (k - 1) as nat), i)
    }
}

/// Law: wrapping a value and immediately acquiring a read view on the new
/// slot succeeds and observes a value equal to the one wrapped.
pub proof fn lemma_wrap_then_read<T>(s: Seq<Option<Slot<T>>>, v: T)
    requires
        wf(s),
    ensures
        ({
            let s1 = wrapped(s, v);
            let i = s.len() as int;
            &&& wf(s1)
            &&& is_live(s1, i)
            &&& can_acquire_read(s1, i)
            &&& value_at(after_acquire_read(s1, i), i) == v
        }),
{
}

/// Law: a mutation made through a write view on one handle is observable
/// through a subsequent read view on a clone of that handle, because the
/// clone references the same slot ([`SCell::clone_handle`] returns a handle
/// with the same id).
pub proof fn lemma_clone_shares_mutation<T>(s: Seq<Option<Slot<T>>>, i: int, v: T)
    requires
        wf(s),
        is_live(s, i),
        refs_at(s, i) < u64::MAX,
        can_acquire_write(s, i),
    ensures
        ({
            let s1 = after_clone(s, i);  // clone the handle
            let s2 = after_acquire_write(s1, i);  // acquire a write view through the original
            let s3 = after_write(s2, i, v);  // replace the value
            let s4 = after_release_write(s3, i);  // release the write view
            &&& can_acquire_write(s1, i)
            &&& can_acquire_read(s4, i)
            &&& value_at(after_acquire_read(s4, i), i) == v
        }),
{
}

/// Law: while a read view is outstanding on a slot, a write view cannot be
/// acquired on it but further read views can; while a write view is
/// outstanding, no view of either kind can be acquired.
pub proof fn lemma_exclusion<T>(s: Seq<Option<Slot<T>>>, i: int)
    requires
        wf(s),
        is_live(s, i),
    ensures
        can_acquire_read(s, i) ==> !can_acquire_write(after_acquire_read(s, i), i),
        can_acquire_read(s, i) ==> can_acquire_read(after_acquire_read(s, i), i),
        can_acquire_write(s, i) ==> !can_acquire_write(after_acquire_write(s, i), i),
        can_acquire_write(s, i) ==> !can_acquire_read(after_acquire_write(s, i), i),
{
}

/// Law: acquiring a read view and releasing it restores the store exactly;
/// in particular, every acquisition that succeeded before succeeds again.
pub proof fn lemma_release_read_restores<T>(s: Seq<Option<Slot<T>>>, i: int)
    requires
        wf(s),
        can_acquire_read(s, i),
        state_at(s, i) matches BorrowState::SharedRead(n) ==> n < u64::MAX,
    ensures
        after_release_read(after_acquire_read(s, i), i) == s,
{
    assert(after_release_read(after_acquire_read(s, i), i) =~= s);
}

/// Law: acquiring a write view and releasing it restores the store exactly;
/// in particular, every acquisition that succeeded before succeeds again.
pub proof fn lemma_release_write_restores<T>(s: Seq<Option<Slot<T>>>, i: int)
    requires
        wf(s),
        can_acquire_write(s, i),
    ensures
        after_release_write(after_acquire_write(s, i), i) == s,
{
    assert(after_release_write(after_acquire_write(s, i), i) =~= s);
}

/// After `k` of `n` outstanding read views are released, `n - k` remain
/// outstanding; releasing the last one returns the slot to `Unborrowed`.
proof fn lemma_release_reads_counts<T>(s: Seq<Option<Slot<T>>>, i: int, n: u64, k: nat)
    requires
        wf(s),
        is_live(s, i),
        state_at(s, i) == BorrowState::SharedRead(n),
        k <= n,
    ensures
        ({
            let s1 = after_release_reads(s, i, k);
            &&& wf(s1)
            &&& is_live(s1, i)
            &&& state_at(s1, i) == (if k == n {
                BorrowState::Unborrowed
            } else {
                BorrowState::SharedRead((n - k) as u64)
            })
            &&& value_at(s1, i) == value_at(s, i)
            &&& refs_at(s1, i) == refs_at(s, i)
            &&& s1.len() == s.len()
            &&& forall|j: int| 0 <= j < s.len() && j != i ==> #[trigger] s1[j] == s[j]
        }),
    decreases k,
{
    if k > 0 {
        lemma_release_reads_counts(s, i, n, (k - 1) as nat);
    }
}

/// Law: releasing every outstanding read view, one after the other, returns
/// the slot's state to `Unborrowed`, after which any new acquisition
/// succeeds; the value is untouched throughout.
pub proof fn lemma_release_all_reads<T>(s: Seq<Option<Slot<T>>>, i: int, n: u64)
    requires
        wf(s),
        is_live(s, i),
        state_at(s, i) == BorrowState::SharedRead(n),
    ensures
        ({
            let s1 = after_release_reads(s, i, n as nat);
            &&& wf(s1)
            &&& state_at(s1, i) is Unborrowed
            &&& can_acquire_read(s1, i)
            &&& can_acquire_write(s1, i)
            &&& value_at(s1, i) == value_at(s, i)
        }),
{
    lemma_release_reads_counts(s, i, n, n as nat);
}

/// Law: no operation but a write through a write view changes any slot's
/// value, and a write changes the value of its own slot alone. Wrapping,
/// acquiring and releasing views, cloning handles and releasing surplus
/// handles all leave every value in place.
pub proof fn lemma_only_writes_mutate<T>(s: Seq<Option<Slot<T>>>, i: int, j: int, v: T, w: T)
    requires
        wf(s),
        is_live(s, i),
        is_live(s, j),
    ensures
        value_at(wrapped(s, w), j) == value_at(s, j),
        value_at(after_acquire_read(s, i), j) == value_at(s, j),
        value_at(after_release_read(s, i), j) == value_at(s, j),
        value_at(after_acquire_write(s, i), j) == value_at(s, j),
        value_at(after_release_write(s, i), j) == value_at(s, j),
        value_at(after_clone(s, i), j) == value_at(s, j),
        i != j || refs_at(s, i) > 1 ==> value_at(after_drop(s, i), j) == value_at(s, j),
        i != j ==> value_at(after_write(s, i, v), j) == value_at(s, j),
        value_at(after_write(s, i, v), i) == v,
{
}

impl<T> Store<T> {
    /// Creates an empty store with no slots.
    pub fn new() -> (s: Store<T>)
        ensures
            s@ == Seq::<Option<Slot<T>>>::empty(),
            wf(s@),
    {
        Store { slots: Vec::new() }
    }

    /// Wraps a bare value into a fresh slot, as [`SCell::new`] does; this is
    /// the conversion from a value to a handle.
    pub fn wrap(&mut self, value: T) -> (h: SCell)
        requires
            wf(old(self)@),
        ensures
            wf(final(self)@),
            final(self)@ == wrapped(old(self)@, value),
            h.id() == old(self)@.len(),
    {
        SCell::new(self, value)
    }
}

impl SCell {
    /// Allocates a new slot holding `value`, unborrowed, with reference
    /// count 1, and returns the first handle to it. Always succeeds.
    pub fn new<T>(store: &mut Store<T>, value: T) -> (h: SCell)
        requires
            wf(old(store)@),
        ensures
            wf(final(store)@),
            final(store)@ == wrapped(old(store)@, value),
            h.id() == old(store)@.len(),
    {
        let idx = store.slots.len();
        store.slots.push(Some(Slot { value, state: BorrowState::Unborrowed, refs: 1 }));
        SCell { idx }
    }

    /// True exactly when the two handles reference the same slot. This is
    /// reference identity, distinct from value equality.
    pub fn same_slot(&self, other: &SCell) -> (r: bool)
        ensures
            r == (self.id() == other.id()),
    {
        self.idx == other.idx
    }

    /// The slot index this handle references: the analogue of pointer
    /// identity for handles.
    pub fn slot_index(&self) -> (i: usize)
        ensures
            i as int == self.id(),
    {
        self.idx
    }

    /// Returns a second handle to the same slot, incrementing the slot's
    /// reference count. Cloning a handle is unrelated to borrowing the
    /// value: no aliasing-state check is made.
    pub fn clone_handle<T>(&self, store: &mut Store<T>) -> (h: SCell)
        requires
            wf(old(store)@),
            is_live(old(store)@, self.id()),
            refs_at(old(store)@, self.id()) < u64::MAX,
        ensures
            wf(final(store)@),
            final(store)@ == after_clone(old(store)@, self.id()),
            h.id() == self.id(),
    {
        let slot_opt = &mut store.slots[self.idx];
        match slot_opt {
            Some(slot) => {
                slot.refs = slot.refs + 1;
            },
            None => {
                proof {
                    assert(false);
                }
            },
        }
        SCell { idx: self.idx }
    }

    /// Acquires a read view on the slot. Fails with [`AliasingViolation`]
    /// exactly when a write view is outstanding; any number of concurrent
    /// read views may be outstanding at once. On failure the store is
    /// unchanged.
    pub fn borrow<T>(&self, store: &mut Store<T>) -> (r: Result<Ref, AliasingViolation>)
        requires
            wf(old(store)@),
            is_live(old(store)@, self.id()),
            state_at(old(store)@, self.id()) matches BorrowState::SharedRead(n) ==> n < u64::MAX,
        ensures
            wf(final(store)@),
            r is Ok <==> can_acquire_read(old(store)@, self.id()),
            r matches Ok(v) ==> v.id() == self.id() && final(store)@ == after_acquire_read(
                old(store)@,
                self.id(),
            ),
            r is Err ==> final(store)@ == old(store)@,
    {
        let slot_opt = &mut store.slots[self.idx];
        let r = match slot_opt {
            Some(slot) => match slot.state {
                BorrowState::Exclusive => Err(AliasingViolation),
                BorrowState::Unborrowed => {
                    slot.state = BorrowState::SharedRead(1);
                    Ok(Ref { idx: self.idx })
                },
                BorrowState::SharedRead(n) => {
                    slot.state = BorrowState::SharedRead(n + 1);
                    Ok(Ref { idx: self.idx })
                },
            },
            None => {
                proof {
                    assert(false);
                }
                Err(AliasingViolation)
            },
        };
        proof {
            if r is Err {
                assert(store@ =~= old(store)@);
            }
        }
        r
    }

    /// Acquires a write view on the slot. Fails with [`AliasingViolation`]
    /// exactly when any view, read or write, is outstanding. On failure the
    /// store is unchanged.
    pub fn borrow_mut<T>(&self, store: &mut Store<T>) -> (r: Result<RefMut, AliasingViolation>)
        requires
            wf(old(store)@),
            is_live(old(store)@, self.id()),
        ensures
            wf(final(store)@),
            r is Ok <==> can_acquire_write(old(store)@, self.id()),
            r matches Ok(v) ==> v.id() == self.id() && final(store)@ == after_acquire_write(
                old(store)@,
                self.id(),
            ),
            r is Err ==> final(store)@ == old(store)@,
    {
        let slot_opt = &mut store.slots[self.idx];
        let r = match slot_opt {
            Some(slot) => match slot.state {
                BorrowState::Unborrowed => {
                    slot.state = BorrowState::Exclusive;
                    Ok(RefMut { idx: self.idx })
                },
                _ => Err(AliasingViolation),
            },
            None => {
                proof {
                    assert(false);
                }
                Err(AliasingViolation)
            },
        };
        proof {
            if r is Err {
                assert(store@ =~= old(store)@);
            }
        }
        r
    }

    /// Releases this handle. The slot's reference count drops by one; when
    /// the last handle is released, the slot and the value it holds are
    /// freed. The last handle can only be released once no view is
    /// outstanding.
    pub fn release<T>(self, store: &mut Store<T>)
        requires
            wf(old(store)@),
            is_live(old(store)@, self.id()),
            refs_at(old(store)@, self.id()) == 1 ==> state_at(old(store)@, self.id())
                is Unborrowed,
        ensures
            wf(final(store)@),
            final(store)@ == after_drop(old(store)@, self.id()),
    {
        let refs = match &store.slots[self.idx] {
            Some(slot) => slot.refs,
            None => unreached(),
        };
        if refs == 1 {
            let slot_opt = &mut store.slots[self.idx];
            *slot_opt = None;
        } else {
            let slot_opt = &mut store.slots[self.idx];
            match slot_opt {
                Some(slot) => {
                    slot.refs = refs - 1;
                },
                None => {
                    proof {
                        assert(false);
                    }
                },
            }
        }
    }
}

impl<T> Store<T> {
    /// The value in slot `i`, read directly. The comparison forwarders use
    /// it in place of an acquire-read-release cycle, whose net effect on the
    /// aliasing state is none.
    fn value_ref(&self, i: usize) -> (r: &T)
        requires
            is_live(self@, i as int),
        ensures
            *r == value_at(self@, i as int),
    {
        match &self.slots[i] {
            Some(slot) => &slot.value,
            None => unreached(),
        }
    }
}

impl SCell {
    /// Equality forwarded to the contained values. Two handles to the same
    /// slot compare equal without inspecting the value; handles to distinct
    /// slots fall back to a full value comparison, which requires that no
    /// write view is outstanding on either slot.
    pub fn eq<T: PartialEq>(&self, other: &SCell, store: &Store<T>) -> (r: bool)
        requires
            is_live(store@, self.id()),
            is_live(store@, other.id()),
            self.id() != other.id() ==> !(state_at(store@, self.id()) is Exclusive) && !(state_at(
                store@,
                other.id(),
            ) is Exclusive),
        ensures
            self.id() == other.id() ==> r == true,
            self.id() != other.id() && T::obeys_eq_spec() ==> r == value_at(
                store@,
                self.id(),
            ).eq_spec(&value_at(store@, other.id())),
    {
        if self.idx == other.idx {
            true
        } else {
            let a = store.value_ref(self.idx);
            let b = store.value_ref(other.idx);
            *a == *b
        }
    }

    /// Inequality forwarded to the contained values, with the same
    /// short-circuit as [`SCell::eq`]: a handle never differs from itself.
    pub fn ne<T: PartialEq>(&self, other: &SCell, store: &Store<T>) -> (r: bool)
        requires
            is_live(store@, self.id()),
            is_live(store@, other.id()),
            self.id() != other.id() ==> !(state_at(store@, self.id()) is Exclusive) && !(state_at(
                store@,
                other.id(),
            ) is Exclusive),
        ensures
            self.id() == other.id() ==> r == false,
            self.id() != other.id() && T::obeys_eq_spec() ==> r == !value_at(
                store@,
                self.id(),
            ).eq_spec(&value_at(store@, other.id())),
    {
        if self.idx == other.idx {
            false
        } else {
            let a = store.value_ref(self.idx);
            let b = store.value_ref(other.idx);
            *a != *b
        }
    }

    /// Ordering comparison forwarded to the contained values. Two handles to
    /// the same slot show no difference (`Some(Equal)`) without inspecting
    /// the value.
    pub fn partial_cmp<T: PartialOrd>(&self, other: &SCell, store: &Store<T>) -> (r: Option<
        Ordering,
    >)
        requires
            is_live(store@, self.id()),
            is_live(store@, other.id()),
            self.id() != other.id() ==> !(state_at(store@, self.id()) is Exclusive) && !(state_at(
                store@,
                other.id(),
            ) is Exclusive),
        ensures
            self.id() == other.id() ==> r == Some(Ordering::Equal),
            self.id() != other.id() && T::obeys_partial_cmp_spec() ==> r == value_at(
                store@,
                self.id(),
            ).partial_cmp_spec(&value_at(store@, other.id())),
    {
        if self.idx == other.idx {
            Some(Ordering::Equal)
        } else {
            let a = store.value_ref(self.idx);
            let b = store.value_ref(other.idx);
            a.partial_cmp(b)
        }
    }

    /// Strictly-less forwarded to the contained values; a handle is never
    /// strictly less than itself.
    pub fn lt<T: PartialOrd>(&self, other: &SCell, store: &Store<T>) -> (r: bool)
        requires
            is_live(store@, self.id()),
            is_live(store@, other.id()),
            self.id() != other.id() ==> !(state_at(store@, self.id()) is Exclusive) && !(state_at(
                store@,
                other.id(),
            ) is Exclusive),
        ensures
            self.id() == other.id() ==> r == false,
            self.id() != other.id() && T::obeys_partial_cmp_spec() ==> r == (value_at(
                store@,
                self.id(),
            ).partial_cmp_spec(&value_at(store@, other.id())) == Some(Ordering::Less)),
    {
        if self.idx == other.idx {
            false
        } else {
            let a = store.value_ref(self.idx);
            let b = store.value_ref(other.idx);
            a.lt(b)
        }
    }

    /// Less-or-equal forwarded to the contained values; a handle is always
    /// less-or-equal to itself.
    pub fn le<T: PartialOrd>(&self, other: &SCell, store: &Store<T>) -> (r: bool)
        requires
            is_live(store@, self.id()),
            is_live(store@, other.id()),
            self.id() != other.id() ==> !(state_at(store@, self.id()) is Exclusive) && !(state_at(
                store@,
                other.id(),
            ) is Exclusive),
        ensures
            self.id() == other.id() ==> r == true,
            self.id() != other.id() && T::obeys_partial_cmp_spec() ==> r == (value_at(
                store@,
                self.id(),
            ).partial_cmp_spec(&value_at(store@, other.id())) matches Some(
                Ordering::Less
                | Ordering::Equal,
            )),
    {
        if self.idx == other.idx {
            true
        } else {
            let a = store.value_ref(self.idx);
            let b = store.value_ref(other.idx);
            a.le(b)
        }
    }

    /// Strictly-greater forwarded to the contained values; a handle is never
    /// strictly greater than itself.
    pub fn gt<T: PartialOrd>(&self, other: &SCell, store: &Store<T>) -> (r: bool)
        requires
            is_live(store@, self.id()),
            is_live(store@, other.id()),
            self.id() != other.id() ==> !(state_at(store@, self.id()) is Exclusive) && !(state_at(
                store@,
                other.id(),
            ) is Exclusive),
        ensures
            self.id() == other.id() ==> r == false,
            self.id() != other.id() && T::obeys_partial_cmp_spec() ==> r == (value_at(
                store@,
                self.id(),
            ).partial_cmp_spec(&value_at(store@, other.id())) == Some(Ordering::Greater)),
    {
        if self.idx == other.idx {
            false
        } else {
            let a = store.value_ref(self.idx);
            let b = store.value_ref(other.idx);
            a.gt(b)
        }
    }

    /// Greater-or-equal forwarded to the contained values; a handle is
    /// always greater-or-equal to itself.
    pub fn ge<T: PartialOrd>(&self, other: &SCell, store: &Store<T>) -> (r: bool)
        requires
            is_live(store@, self.id()),
            is_live(store@, other.id()),
            self.id() != other.id() ==> !(state_at(store@, self.id()) is Exclusive) && !(state_at(
                store@,
                other.id(),
            ) is Exclusive),
        ensures
            self.id() == other.id() ==> r == true,
            self.id() != other.id() && T::obeys_partial_cmp_spec() ==> r == (value_at(
                store@,
                self.id(),
            ).partial_cmp_spec(&value_at(store@, other.id())) matches Some(
                Ordering::Greater
                | Ordering::Equal,
            )),
    {
        if self.idx == other.idx {
            true
        } else {
            let a = store.value_ref(self.idx);
            let b = store.value_ref(other.idx);
            a.ge(b)
        }
    }

    /// Total-ordering comparison forwarded to the contained values. Two
    /// handles to the same slot compare `Equal` without inspecting the
    /// value.
    pub fn cmp<T: Ord>(&self, other: &SCell, store: &Store<T>) -> (r: Ordering)
        requires
            is_live(store@, self.id()),
            is_live(store@, other.id()),
            self.id() != other.id() ==> !(state_at(store@, self.id()) is Exclusive) && !(state_at(
                store@,
                other.id(),
            ) is Exclusive),
        ensures
            self.id() == other.id() ==> r == Ordering::Equal,
            self.id() != other.id() && T::obeys_cmp_spec() ==> r == value_at(
                store@,
                self.id(),
            ).cmp_spec(&value_at(store@, other.id())),
    {
        if self.idx == other.idx {
            Ordering::Equal
        } else {
            let a = store.value_ref(self.idx);
            let b = store.value_ref(other.idx);
            a.cmp(b)
        }
    }
}

impl Ref {
    /// Reads the value this view grants access to.
    pub fn read<'a, T>(&self, store: &'a Store<T>) -> (r: &'a T)
        requires
            is_live(store@, self.id()),
            state_at(store@, self.id()) is SharedRead,
        ensures
            *r == value_at(store@, self.id()),
    {
        match &store.slots[self.idx] {
            Some(slot) => &slot.value,
            None => unreached(),
        }
    }

    /// Releases the read view: the shared-read count drops by one, and the
    /// slot returns to `Unborrowed` when the last read view is released.
    /// Consuming the view guarantees it cannot be used afterwards.
    pub fn release<T>(self, store: &mut Store<T>)
        requires
            wf(old(store)@),
            is_live(old(store)@, self.id()),
            state_at(old(store)@, self.id()) is SharedRead,
        ensures
            wf(final(store)@),
            final(store)@ == after_release_read(old(store)@, self.id()),
    {
        let slot_opt = &mut store.slots[self.idx];
        match slot_opt {
            Some(slot) => match slot.state {
                BorrowState::SharedRead(n) => {
                    if n == 1 {
                        slot.state = BorrowState::Unborrowed;
                    } else {
                        slot.state = BorrowState::SharedRead(n - 1);
                    }
                },
                _ => {
                    proof {
                        assert(false);
                    }
                },
            },
            None => {
                proof {
                    assert(false);
                }
            },
        }
    }
}

impl RefMut {
    /// Reads the value this view grants access to.
    pub fn read<'a, T>(&self, store: &'a Store<T>) -> (r: &'a T)
        requires
            is_live(store@, self.id()),
            state_at(store@, self.id()) is Exclusive,
        ensures
            *r == value_at(store@, self.id()),
    {
        match &store.slots[self.idx] {
            Some(slot) => &slot.value,
            None => unreached(),
        }
    }

    /// Replaces the slot's value through the write view. The mutation is
    /// observable through every handle to the slot.
    pub fn write<T>(&self, store: &mut Store<T>, value: T)
        requires
            wf(old(store)@),
            is_live(old(store)@, self.id()),
            state_at(old(store)@, self.id()) is Exclusive,
        ensures
            wf(final(store)@),
            final(store)@ == after_write(old(store)@, self.id(), value),
    {
        let slot_opt = &mut store.slots[self.idx];
        match slot_opt {
            Some(slot) => {
                slot.value = value;
            },
            None => {
                proof {
                    assert(false);
                }
            },
        }
    }

    /// Releases the write view: the slot returns to `Unborrowed`. Consuming
    /// the view guarantees it cannot be used afterwards.
    pub fn release<T>(self, store: &mut Store<T>)
        requires
            wf(old(store)@),
            is_live(old(store)@, self.id()),
            state_at(old(store)@, self.id()) is Exclusive,
        ensures
            wf(final(store)@),
            final(store)@ == after_release_write(old(store)@, self.id()),
    {
        let slot_opt = &mut store.slots[self.idx];
        match slot_opt {
            Some(slot) => {
                slot.state = BorrowState::Unborrowed;
            },
            None => {
                proof {
                    assert(false);
                }
            },
        }
    }
}

} // verus!
