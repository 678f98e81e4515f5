//! Access descriptors: shared versus exclusive access to one component type.
//!
//! A query names, for each component type it touches, how it wants the
//! component handed to its callback. Both kinds go through one checkout and
//! reconcile cycle: the component's field row is copied out of the store,
//! the callback runs on the copies, and afterwards an exclusively held
//! component's (possibly changed) row is written back while a shared copy
//! is discarded and the store is left as it was.

use vstd::prelude::*;

verus! {

/// The kind of reference a query requests for one component type.
#[derive(Clone, Copy, PartialEq, Eq, Structural, Debug)]
pub enum RefType {
    /// Read-only access; after the callback, the store keeps its old value.
    Shared,
    /// Read-modify-write access; after the callback, the callback's value
    /// for this component is written back into the store.
    Exclusive,
}

impl RefType {
    /// True for the exclusive, write-back kind.
    pub open spec fn is_mut(self) -> bool {
        self is Exclusive
    }

    /// Executable twin of [`RefType::is_mut`].
    pub fn mutates(self) -> (r: bool)
        ensures
            r == self.is_mut(),
    {
        match self {
            RefType::Shared => false,
            RefType::Exclusive => true,
        }
    }
}

/// One slot of a query: a component type key together with the kind of
/// access requested for it.
#[derive(Clone, Copy, PartialEq, Eq, Structural, Debug)]
pub struct Access {
    /// How the component is borrowed and reconciled.
    pub mode: RefType,
    /// The component type the access names.
    pub key: u64,
}

impl Access {
    /// A shared access to the component type `key`.
    pub fn shared(key: u64) -> (a: Access)
        ensures
            a == (Access { mode: RefType::Shared, key }),
    {
        Access { mode: RefType::Shared, key }
    }

    /// An exclusive access to the component type `key`.
    pub fn exclusive(key: u64) -> (a: Access)
        ensures
            a == (Access { mode: RefType::Exclusive, key }),
    {
        Access { mode: RefType::Exclusive, key }
    }
}

} // verus!
