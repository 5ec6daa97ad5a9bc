//! Reference-counted shared cells with interior mutability.
//!
//! A `SCell` is a handle to a slot that holds one value. Any number of
//! handles may share one slot: cloning a handle yields a second handle to
//! the *same* slot, not a copy of the value. The value is reached through
//! transient read and write views.
//!
//! Because a compiler that enforces exclusive-mutable-or-many-shared access
//! statically cannot see through such sharing, the slots live in an explicit
//! [`checked::Store`] (or [`unchecked::Store`]): a handle is an index into
//! the store, and every operation that touches a slot takes the store as an
//! argument. Two enforcement strategies are offered as parallel modules with
//! the same surface:
//!
//! - [`checked`] tracks, per slot, an aliasing state (unborrowed, shared
//!   reads, or exclusive write) and refuses any acquisition that would
//!   overlap a write view, reporting an [`checked::AliasingViolation`].
//! - [`unchecked`] tracks nothing: acquisitions always succeed, and the
//!   caller alone upholds the one-writer-or-many-readers discipline.
//!
//! Both modules forward equality and ordering to the contained value, with a
//! short-circuit whenever the two operands are handles to the same slot.

pub mod checked;
pub mod unchecked;
