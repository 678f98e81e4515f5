//! Type-erased component slots.
//!
//! A component is a typed value attached to an entity. The store keeps at
//! most one component per type, so a component type is identified by a key:
//! a `u64` chosen by the caller, one per component type. The component's own
//! fields are laid out as a row of `i64` values in declaration order. An
//! erased slot holds that row together with the key it was constructed
//! under, so a request to recover a value of the wrong type is refused by
//! comparing keys, never by inspecting the fields.

use vstd::prelude::*;

verus! {

/// An erased slot: one component value behind a uniform representation.
///
/// The slot records the type key it was constructed under (`key`) beside
/// the component's field values (`fields`). Recovery of the typed value is
/// guaranteed to succeed for that key and only that key.
pub struct Data {
    /// The type key of the component held in this slot.
    pub key: u64,
    /// The component's field values, in declaration order.
    pub fields: Vec<i64>,
}

impl Data {
    /// True when this slot holds a component of the type named by `key`.
    pub open spec fn holds(&self, key: u64) -> bool {
        self.key == key
    }
}

/// Erases a component: pairs the type key with a slot built from the
/// component's fields, ready for `EntityData::extend`.
pub fn new(key: u64, fields: Vec<i64>) -> (r: (u64, Data))
    ensures
        r.0 == key,
        r.1.key == key,
        r.1.fields@ == fields@,
{
    (key, Data { key, fields })
}

} // verus!
