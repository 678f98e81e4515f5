//! A minimal entity-component-system core.
//!
//! A world owns a list of entity stores and a list of systems. Each entity
//! store maps component type keys to erased component slots, at most one
//! per type. A system pairs a query — which component types it wants, and
//! whether it wants shared or exclusive access to each — with a callback;
//! one tick applies every system, in registration order, to every entity,
//! in creation order.
//!
//! The store's contract is stated over a mathematical view: a `Map` from
//! type key to the component's field row. A query's fetch, the callback's
//! result and the writeback of exclusively held components are all specified
//! over that view, so what a tick does to the world is a pure function of
//! the systems and the stores.

use vstd::prelude::*;

pub mod data;
pub mod family;
pub mod system;
pub mod context;

use data::Data;
use system::{QueryHandler, entity_views, run_systems, run_tick};

verus! {

/// An opaque entity handle: the position of the entity's store in the
/// world's entity list. Handles are issued in increasing order from zero
/// and are never reused; a handle is valid iff it is below the entity count.
#[derive(Clone, Copy, PartialEq, Eq, Structural, Debug)]
pub struct EntityId(pub usize);

/// True when no two slots of `s` carry the same type key.
pub open spec fn slot_keys_distinct(s: Seq<Data>) -> bool {
    forall|i: int, j: int| 0 <= i < j < s.len() ==> s[i].key != s[j].key
}

/// The store a sequence of slots denotes: each slot's key maps to its
/// field row; with a duplicated key, the later slot wins.
pub open spec fn slots_to_map(s: Seq<Data>) -> Map<u64, Seq<i64>>
    decreases s.len(),
{
    if s.len() == 0 {
        Map::empty()
    } else {
        slots_to_map(s.drop_last()).insert(s.last().key, s.last().fields@)
    }
}

/// A key is in the denoted store exactly when some slot carries it.
proof fn lemma_slots_to_map_contains(s: Seq<Data>, key: u64)
    ensures
        slots_to_map(s).contains_key(key) <==> exists|i: int|
            0 <= i < s.len() && s[i].key == key,
    decreases s.len(),
{
    if s.len() > 0 {
        lemma_slots_to_map_contains(s.drop_last(), key);
        if s.last().key == key {
            assert(s[s.len() - 1].key == key);
        } else {
            if exists|i: int| 0 <= i < s.len() && s[i].key == key {
                let i = choose|i: int| 0 <= i < s.len() && s[i].key == key;
                assert(s.drop_last()[i].key == key);
            }
        }
    }
}

/// With distinct keys, the slot at `i` gives the denoted store's entry
/// for its key.
proof fn lemma_slots_to_map_index(s: Seq<Data>, i: int)
    requires
        slot_keys_distinct(s),
        0 <= i < s.len(),
    ensures
        slots_to_map(s).contains_key(s[i].key),
        slots_to_map(s)[s[i].key] == s[i].fields@,
    decreases s.len(),
{
    if i < s.len() - 1 {
        lemma_slots_to_map_index(s.drop_last(), i);
        assert(s.drop_last()[i] == s[i]);
        assert(s.last().key != s[i].key);
    }
}

/// Replacing the slot at `i` by one with the same key updates exactly
/// that key's entry in the denoted store.
proof fn lemma_slots_to_map_update(s: Seq<Data>, i: int, d: Data)
    requires
        slot_keys_distinct(s),
        0 <= i < s.len(),
        s[i].key == d.key,
    ensures
        slots_to_map(s.update(i, d)) == slots_to_map(s).insert(d.key, d.fields@),
    decreases s.len(),
{
    if i == s.len() - 1 {
        assert(s.update(i, d).drop_last() =~= s.drop_last());
        assert(s.update(i, d).last() == d);
        assert(slots_to_map(s.drop_last()).insert(s.last().key, s.last().fields@).insert(
            d.key,
            d.fields@,
        ) =~= slots_to_map(s.drop_last()).insert(d.key, d.fields@));
    } else {
        assert(s.update(i, d).drop_last() =~= s.drop_last().update(i, d));
        assert(s.update(i, d).last() == s.last());
        lemma_slots_to_map_update(s.drop_last(), i, d);
        assert(s.last().key != d.key);
        assert(slots_to_map(s.drop_last()).insert(d.key, d.fields@).insert(
            s.last().key,
            s.last().fields@,
        ) =~= slots_to_map(s.drop_last()).insert(s.last().key, s.last().fields@).insert(
            d.key,
            d.fields@,
        ));
    }
}

/// Appending a slot whose key no other slot carries inserts its entry.
proof fn lemma_slots_to_map_push(s: Seq<Data>, d: Data)
    ensures
        slots_to_map(s.push(d)) == slots_to_map(s).insert(d.key, d.fields@),
{
    assert(s.push(d).drop_last() =~= s);
}

/// The store after inserting a sequence of `(type key, slot)` pairs in
/// order: each pair's field row is written under the pair's key, so a later
/// pair with the same key replaces an earlier one.
pub open spec fn store_extend(m: Map<u64, Seq<i64>>, items: Seq<(u64, Data)>) -> Map<
    u64,
    Seq<i64>,
>
    decreases items.len(),
{
    if items.len() == 0 {
        m
    } else {
        store_extend(m, items.drop_last()).insert(items.last().0, items.last().1.fields@)
    }
}

/// An entity's store: a mapping from component type key to the erased slot
/// holding that component's current value — at most one slot per type.
///
/// Its view is the denoted `Map<u64, Seq<i64>>` from type key to field row.
pub struct EntityData {
    slots: Vec<Data>,
}

impl View for EntityData {
    type V = Map<u64, Seq<i64>>;

    closed spec fn view(&self) -> Map<u64, Seq<i64>> {
        slots_to_map(self.slots@)
    }
}

impl EntityData {
    /// Well-formed: no component type occurs twice.
    pub closed spec fn wf(&self) -> bool {
        slot_keys_distinct(self.slots@)
    }

    /// An empty store: no components at all.
    pub fn empty() -> (e: EntityData)
        ensures
            e.wf(),
            e@ == Map::<u64, Seq<i64>>::empty(),
    {
        EntityData { slots: Vec::new() }
    }

    /// The position of the slot holding a component of type `key`, if one
    /// does: the lookup that always precedes a typed recovery, so recovery
    /// is never attempted against a mismatched slot.
    fn find(&self, key: u64) -> (r: Option<usize>)
        ensures
            match r {
                Some(i) => i < self.slots@.len() && self.slots@[i as int].holds(key),
                None => forall|i: int|
                    0 <= i < self.slots@.len() ==> !self.slots@[i].holds(key),
            },
    {
        let mut i: usize = 0;
        while i < self.slots.len()
            invariant
                i <= self.slots@.len(),
                forall|j: int| 0 <= j < i ==> self.slots@[j].key != key,
            decreases self.slots@.len() - i,
        {
            if self.slots[i].key == key {
                return Some(i);
            }
            i += 1;
        }
        None
    }

    /// Looks the component of type `key` up and hands a copy of its field
    /// row out; the store keeps its own value. An entity simply lacking the
    /// component yields `None` — an expected outcome, not a fault.
    pub fn get(&self, key: u64) -> (r: Option<Vec<i64>>)
        requires
            self.wf(),
        ensures
            match r {
                Some(fields) => self@.contains_key(key) && fields@ == self@[key],
                None => !self@.contains_key(key),
            },
    {
        proof {
            lemma_slots_to_map_contains(self.slots@, key);
        }
        match self.find(key) {
            Some(i) => {
                proof {
                    lemma_slots_to_map_index(self.slots@, i as int);
                }
                let fields = self.slots[i].fields.clone();
                assert(fields@ =~= self.slots@[i as int].fields@);
                Some(fields)
            },
            None => None,
        }
    }

    /// Writes the component of type `key` — replacing the slot already
    /// carrying that type, or appending a fresh one.
    pub fn update(&mut self, key: u64, fields: Vec<i64>)
        requires
            old(self).wf(),
        ensures
            final(self).wf(),
            final(self)@ == old(self)@.insert(key, fields@),
    {
        let d = Data { key, fields };
        match self.find(key) {
            Some(i) => {
                proof {
                    lemma_slots_to_map_update(self.slots@, i as int, d);
                }
                let slot = vec_index_mut(&mut self.slots, i);
                *slot = d;
            },
            None => {
                proof {
                    lemma_slots_to_map_push(self.slots@, d);
                }
                self.slots.push(d);
            },
        }
    }

    /// Bulk-inserts `(type key, slot)` pairs, as `data::new` builds them:
    /// each component is written under the pair's key, replacing any value
    /// of the same type already present. Used to seed an entity's initial
    /// components.
    pub fn extend(&mut self, items: Vec<(u64, Data)>)
        requires
            old(self).wf(),
        ensures
            final(self).wf(),
            final(self)@ == store_extend(old(self)@, items@),
    {
        let mut i: usize = 0;
        while i < items.len()
            invariant
                i <= items@.len(),
                self.wf(),
                self@ == store_extend(old(self)@, items@.take(i as int)),
            decreases items@.len() - i,
        {
            let fields = items[i].1.fields.clone();
            assert(fields@ =~= items@[i as int].1.fields@);
            self.update(items[i].0, fields);
            proof {
                assert(items@.take(i + 1).drop_last() =~= items@.take(i as int));
                assert(items@.take(i + 1).last() == items@[i as int]);
            }
            i += 1;
        }
        assert(items@.take(items@.len() as int) =~= items@);
    }
}

impl Default for EntityData {
    /// The default store is empty.
    fn default() -> (e: EntityData)
        ensures
            e.wf(),
            e@ == Map::<u64, Seq<i64>>::empty(),
    {
        EntityData::empty()
    }
}

/// The world: the owner of every system and every entity store, and the
/// driver of tick execution. Both lists only ever grow, by `new_entity`
/// and by pushing onto `systems`.
pub struct World {
    /// The systems, in registration order. One tick applies each of them,
    /// in this order, to every entity.
    pub systems: Vec<QueryHandler>,
    entities: Vec<EntityData>,
}

impl World {
    /// The entity stores, in creation order.
    pub closed spec fn entities_seq(&self) -> Seq<EntityData> {
        self.entities@
    }

    /// The systems, in registration order.
    pub closed spec fn systems_seq(&self) -> Seq<QueryHandler> {
        self.systems@
    }

    /// The stores' denoted maps, in creation order: what the contracts
    /// speak of.
    pub open spec fn entities_view(&self) -> Seq<Map<u64, Seq<i64>>> {
        entity_views(self.entities_seq())
    }

    /// Well-formed: every entity's store is.
    pub open spec fn wf(&self) -> bool {
        forall|k: int|
            0 <= k < self.entities_seq().len() ==> (#[trigger] self.entities_seq()[k]).wf()
    }

    /// Appends a fresh, empty entity store and returns its handle: the
    /// next sequential position. Never fails; handles are never reused.
    pub fn new_entity(&mut self) -> (id: EntityId)
        requires
            old(self).wf(),
        ensures
            final(self).wf(),
            final(self).systems_seq() == old(self).systems_seq(),
            id.0 == old(self).entities_view().len(),
            final(self).entities_view() == old(self).entities_view().push(
                Map::<u64, Seq<i64>>::empty(),
            ),
    {
        let id = self.entities.len();
        self.entities.push(EntityData::empty());
        proof {
            assert(entity_views(self.entities@) =~= entity_views(old(self).entities@).push(
                Map::<u64, Seq<i64>>::empty(),
            ));
            assert forall|k: int|
                0 <= k < self.entities_seq().len() implies (#[trigger] self.entities_seq()[k]).wf() by {
                if k < old(self).entities@.len() {
                    assert(old(self).entities_seq()[k].wf());
                }
            }
        }
        EntityId(id)
    }

    /// Advances one tick: every system, in registration order, is applied
    /// to every entity store, in creation order; a system runs to
    /// completion across all entities before the next system begins.
    pub fn run(&mut self)
        requires
            old(self).wf(),
        ensures
            final(self).wf(),
            final(self).systems_seq() == old(self).systems_seq(),
            final(self).entities_view() == run_systems(
                old(self).systems_seq(),
                old(self).entities_view(),
            ),
    {
        proof {
            assert forall|k: int|
                0 <= k < self.entities@.len() implies (#[trigger] self.entities@[k]).wf() by {
                assert(old(self).entities_seq()[k].wf());
            }
        }
        run_tick(&self.systems, &mut self.entities);
        proof {
            assert forall|k: int|
                0 <= k < self.entities_seq().len() implies (#[trigger] self.entities_seq()[k]).wf() by {
                assert(self.entities@[k].wf());
            }
        }
    }

    /// The store of the entity a handle names, for inspection. A handle is
    /// only valid below the entity count; anything else is a misuse.
    pub fn entity(&self, id: EntityId) -> (e: &EntityData)
        requires
            id.0 < self.entities_view().len(),
        ensures
            *e == self.entities_seq()[id.0 as int],
            e@ == self.entities_view()[id.0 as int],
            self.wf() ==> e.wf(),
    {
        &self.entities[id.0]
    }

    /// The store of the entity a handle names, for direct mutation —
    /// seeding initial components, say.
    pub fn entity_mut(&mut self, id: EntityId) -> (e: &mut EntityData)
        requires
            id.0 < old(self).entities_view().len(),
        ensures
            *e == old(self).entities_seq()[id.0 as int],
            old(self).wf() ==> e.wf(),
            final(self).systems_seq() == old(self).systems_seq(),
            final(self).entities_seq() == old(self).entities_seq().update(
                id.0 as int,
                *final(e),
            ),
            final(self).entities_view() == old(self).entities_view().update(
                id.0 as int,
                final(e)@,
            ),
            old(self).wf() && final(e).wf() ==> final(self).wf(),
    {
        vec_index_mut(&mut self.entities, id.0)
    }
}

impl Default for World {
    /// The default world holds no systems and no entities.
    fn default() -> (w: World)
        ensures
            w.wf(),
            w.systems_seq() == Seq::<QueryHandler>::empty(),
            w.entities_view() == Seq::<Map<u64, Seq<i64>>>::empty(),
    {
        World { systems: Vec::new(), entities: Vec::new() }
    }
}

/// A mutable borrow of one element of a vector.
pub(crate) fn vec_index_mut<T>(v: &mut Vec<T>, i: usize) -> (element: &mut T)
    requires
        i < old(v)@.len(),
    ensures
        *element == old(v)@[i as int],
        final(v)@ == old(v)@.update(i as int, *final(element)),
{
    &mut v[i]
}

} // verus!
