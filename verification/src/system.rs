//! Queries, callbacks, and systems.
//!
//! A query combines one to three access descriptors over distinct component
//! types. Applying a query to an entity's store is all-or-nothing: if any
//! named component is absent the whole application is a silent no-op;
//! otherwise the callback runs once on the fetched field rows, in
//! descriptor order, and afterwards each exclusively accessed component's
//! row from the callback is written back while shared copies are discarded.
//!
//! A system pairs a query with a callback. It is applied once per entity
//! per tick through a shared borrow, so one system value serves arbitrarily
//! many invocations.

use vstd::prelude::*;
use vstd::wrapping::i64_specs;

use crate::EntityData;
use crate::family::{Access, RefType};

verus! {

/// The row a callback leaves in one slot when it adds `b`'s fields into
/// `a`'s, element by element with wrapping addition; fields of `a` beyond
/// `b`'s length are kept as they are.
pub open spec fn add_fields(a: Seq<i64>, b: Seq<i64>) -> Seq<i64> {
    Seq::new(
        a.len(),
        |i: int|
            if i < b.len() {
                i64_specs::wrapping_add(a[i], b[i])
            } else {
                a[i]
            },
    )
}

/// What a system does with the component rows its query fetched.
///
/// The callback receives one field row per access descriptor, in descriptor
/// order, and yields a row for each; rows under a shared descriptor are
/// discarded afterwards, rows under an exclusive descriptor are written
/// back. A kind that needs more slots than the query has leaves every row
/// unchanged.
pub enum Callback {
    /// Observe only: every row is left as fetched.
    Keep,
    /// Replace the first slot's row by the given one.
    SetTo(Vec<i64>),
    /// Add the given row into the first slot's, element by element,
    /// wrapping on overflow.
    AddTo(Vec<i64>),
    /// Replace the first slot's row by a copy of the second slot's.
    CopyFrom,
    /// Add the second slot's row into the first slot's, element by
    /// element, wrapping on overflow.
    AddFrom,
}

/// The rows a callback yields for the fetched rows `inputs`, one per
/// access descriptor.
pub open spec fn callback_out(cb: Callback, inputs: Seq<Seq<i64>>) -> Seq<Seq<i64>> {
    match cb {
        Callback::Keep => inputs,
        Callback::SetTo(v) => if inputs.len() >= 1 {
            inputs.update(0, v@)
        } else {
            inputs
        },
        Callback::AddTo(v) => if inputs.len() >= 1 {
            inputs.update(0, add_fields(inputs[0], v@))
        } else {
            inputs
        },
        Callback::CopyFrom => if inputs.len() >= 2 {
            inputs.update(0, inputs[1])
        } else {
            inputs
        },
        Callback::AddFrom => if inputs.len() >= 2 {
            inputs.update(0, add_fields(inputs[0], inputs[1]))
        } else {
            inputs
        },
    }
}

/// A callback yields exactly one row per fetched row.
pub proof fn lemma_callback_out_len(cb: Callback, inputs: Seq<Seq<i64>>)
    ensures
        callback_out(cb, inputs).len() == inputs.len(),
{
}

/// The field rows a sequence of row vectors denotes.
pub open spec fn payload_views(s: Seq<Vec<i64>>) -> Seq<Seq<i64>> {
    Seq::new(s.len(), |i: int| s[i]@)
}

/// Adds `b`'s fields into `a`'s, element by element, wrapping on overflow.
fn add_field_vecs(a: &Vec<i64>, b: &Vec<i64>) -> (r: Vec<i64>)
    ensures
        r@ == add_fields(a@, b@),
{
    let mut r: Vec<i64> = Vec::new();
    let mut i: usize = 0;
    while i < a.len()
        invariant
            i <= a@.len(),
            r@.len() == i,
            forall|j: int| 0 <= j < i ==> r@[j] == add_fields(a@, b@)[j],
        decreases a@.len() - i,
    {
        if i < b.len() {
            r.push(a[i].wrapping_add(b[i]));
        } else {
            r.push(a[i]);
        }
        i += 1;
    }
    assert(r@ =~= add_fields(a@, b@));
    r
}

/// Runs a callback on the fetched rows and returns the rows it yields.
fn run_callback(cb: &Callback, inputs: Vec<Vec<i64>>) -> (outs: Vec<Vec<i64>>)
    ensures
        payload_views(outs@) == callback_out(*cb, payload_views(inputs@)),
{
    let ghost ins = payload_views(inputs@);
    match cb {
        Callback::Keep => inputs,
        Callback::SetTo(v) => {
            if inputs.len() >= 1 {
                let row = v.clone();
                assert(row@ =~= v@);
                let mut outs = inputs;
                let slot = crate::vec_index_mut(&mut outs, 0);
                *slot = row;
                assert(payload_views(outs@) =~= callback_out(*cb, ins));
                outs
            } else {
                inputs
            }
        },
        Callback::AddTo(v) => {
            if inputs.len() >= 1 {
                let row = add_field_vecs(&inputs[0], v);
                let mut outs = inputs;
                let slot = crate::vec_index_mut(&mut outs, 0);
                *slot = row;
                assert(payload_views(outs@) =~= callback_out(*cb, ins));
                outs
            } else {
                inputs
            }
        },
        Callback::CopyFrom => {
            if inputs.len() >= 2 {
                let row = inputs[1].clone();
                assert(row@ =~= inputs@[1]@);
                let mut outs = inputs;
                let slot = crate::vec_index_mut(&mut outs, 0);
                *slot = row;
                assert(payload_views(outs@) =~= callback_out(*cb, ins));
                outs
            } else {
                inputs
            }
        },
        Callback::AddFrom => {
            if inputs.len() >= 2 {
                let row = add_field_vecs(&inputs[0], &inputs[1]);
                let mut outs = inputs;
                let slot = crate::vec_index_mut(&mut outs, 0);
                *slot = row;
                assert(payload_views(outs@) =~= callback_out(*cb, ins));
                outs
            } else {
                inputs
            }
        },
    }
}

/// A well-shaped query: one to three access descriptors, no component type
/// named twice.
pub open spec fn query_wf(q: Seq<Access>) -> bool {
    &&& 1 <= q.len() <= 3
    &&& forall|i: int, j: int| 0 <= i < j < q.len() ==> q[i].key != q[j].key
}

/// A query: an ordered combination of access descriptors, each naming a
/// distinct component type. Its view is that descriptor sequence.
pub struct Query {
    accesses: Vec<Access>,
}

impl View for Query {
    type V = Seq<Access>;

    closed spec fn view(&self) -> Seq<Access> {
        self.accesses@
    }
}

impl Query {
    /// Builds a query over the given descriptors. A combination that is
    /// not supported — no descriptor, more than three, or one component
    /// type named under two descriptors — is rejected.
    pub fn new(accesses: Vec<Access>) -> (r: Option<Query>)
        ensures
            match r {
                Some(q) => q@ == accesses@ && query_wf(accesses@),
                None => !query_wf(accesses@),
            },
    {
        if accesses.len() < 1 || accesses.len() > 3 {
            return None;
        }
        if accesses.len() >= 2 && accesses[0].key == accesses[1].key {
            return None;
        }
        if accesses.len() == 3 && (accesses[0].key == accesses[2].key || accesses[1].key
            == accesses[2].key) {
            return None;
        }
        Some(Query { accesses })
    }

    /// The number of access descriptors.
    pub fn arity(&self) -> (n: usize)
        ensures
            n == self@.len(),
    {
        self.accesses.len()
    }
}

/// Every component type the query names is present in the store.
pub open spec fn query_hits(q: Seq<Access>, store: Map<u64, Seq<i64>>) -> bool {
    forall|i: int| 0 <= i < q.len() ==> store.contains_key(q[i].key)
}

/// The rows a hitting query fetches: per descriptor, the store's row for
/// its component type.
pub open spec fn fetch_store(q: Seq<Access>, store: Map<u64, Seq<i64>>) -> Seq<Seq<i64>> {
    Seq::new(q.len(), |i: int| store[q[i].key])
}

/// The store after the first `n` descriptors reconciled: an exclusive
/// descriptor writes the callback's row for its slot back under its
/// component type, a shared one leaves the store alone.
pub open spec fn write_back_upto(
    q: Seq<Access>,
    outs: Seq<Seq<i64>>,
    store: Map<u64, Seq<i64>>,
    n: int,
) -> Map<u64, Seq<i64>>
    decreases n,
{
    if n <= 0 {
        store
    } else {
        let prev = write_back_upto(q, outs, store, n - 1);
        if q[n - 1].mode.is_mut() {
            prev.insert(q[n - 1].key, outs[n - 1])
        } else {
            prev
        }
    }
}

/// The store after every descriptor reconciled its slot.
pub open spec fn write_back(q: Seq<Access>, outs: Seq<Seq<i64>>, store: Map<u64, Seq<i64>>) -> Map<
    u64,
    Seq<i64>,
> {
    write_back_upto(q, outs, store, q.len() as int)
}

/// What one application of a system leaves of an entity's store: with any
/// named component absent, the store untouched and the callback never run;
/// otherwise the callback's rows for the exclusively accessed components,
/// written back, and everything else as it was.
pub open spec fn apply_system(sys: QueryHandler, store: Map<u64, Seq<i64>>) -> Map<u64, Seq<i64>> {
    if query_hits(sys.query@, store) {
        write_back(sys.query@, callback_out(sys.callback, fetch_store(sys.query@, store)), store)
    } else {
        store
    }
}

/// A re-invocable unit that can be applied to any entity's store: the
/// uniform face every stored system shows the world loop, independent of
/// its query shape and callback.
pub trait System {
    /// The store this system leaves where it finds `store`.
    spec fn effect(&self, store: Map<u64, Seq<i64>>) -> Map<u64, Seq<i64>>;

    /// Applies the system to one entity's store: fetch, callback,
    /// reconcile — or a silent no-op if a named component is absent.
    fn call_with_data(&self, data: &mut EntityData)
        requires
            old(data).wf(),
        ensures
            final(data).wf(),
            final(data)@ == self.effect(old(data)@),
    ;
}

/// A query paired with a callback: the one concrete system shape. It is
/// applied through a shared borrow, so the same value serves every entity
/// and every tick without being consumed.
pub struct QueryHandler {
    /// Which components the system wants, and with what access.
    pub query: Query,
    /// What the system does with the fetched rows.
    pub callback: Callback,
}

/// Builds the system that runs `callback` under the shape of `query`.
pub fn new(query: Query, callback: Callback) -> (s: QueryHandler)
    ensures
        s == (QueryHandler { query, callback }),
{
    QueryHandler { query, callback }
}

impl System for QueryHandler {
    open spec fn effect(&self, store: Map<u64, Seq<i64>>) -> Map<u64, Seq<i64>> {
        apply_system(*self, store)
    }

    fn call_with_data(&self, data: &mut EntityData) {
        let n = self.query.accesses.len();
        let mut inputs: Vec<Vec<i64>> = Vec::new();
        let mut i: usize = 0;
        while i < n
            invariant
                old(data).wf(),
                *data == *old(data),
                n == self.query@.len(),
                i <= n,
                inputs@.len() == i,
                forall|j: int| 0 <= j < i ==> data@.contains_key(#[trigger] self.query@[j].key),
                forall|j: int| 0 <= j < i ==> #[trigger] inputs@[j]@ == data@[self.query@[j].key],
            decreases n - i,
        {
            let key = self.query.accesses[i].key;
            match data.get(key) {
                Some(fields) => {
                    inputs.push(fields);
                },
                None => {
                    // A named component is absent: the whole query is a
                    // silent no-op for this entity.
                    assert(!query_hits(self.query@, data@));
                    return ;
                },
            }
            i += 1;
        }
        assert(query_hits(self.query@, data@));
        assert(payload_views(inputs@) =~= fetch_store(self.query@, data@));
        let ghost store0 = data@;
        let outs = run_callback(&self.callback, inputs);
        proof {
            lemma_callback_out_len(self.callback, fetch_store(self.query@, store0));
        }
        let mut i: usize = 0;
        while i < n
            invariant
                n == self.query@.len(),
                i <= n,
                data.wf(),
                outs@.len() == n,
                payload_views(outs@) == callback_out(
                    self.callback,
                    fetch_store(self.query@, store0),
                ),
                data@ == write_back_upto(self.query@, payload_views(outs@), store0, i as int),
            decreases n - i,
        {
            if self.query.accesses[i].mode.mutates() {
                let fields = outs[i].clone();
                assert(fields@ =~= outs@[i as int]@);
                data.update(self.query.accesses[i].key, fields);
            }
            i += 1;
        }
    }
}

/// Up to `n` descriptors, the writeback of an exclusive descriptor whose
/// key no later one writes is exactly the callback's row for its slot.
proof fn lemma_write_back_upto_at(
    q: Seq<Access>,
    outs: Seq<Seq<i64>>,
    store: Map<u64, Seq<i64>>,
    n: int,
    i: int,
)
    requires
        0 <= i < n <= q.len(),
        q[i].mode.is_mut(),
        forall|j: int| i < j < n ==> q[j].key != q[i].key,
    ensures
        write_back_upto(q, outs, store, n).contains_key(q[i].key),
        write_back_upto(q, outs, store, n)[q[i].key] == outs[i],
    decreases n,
{
    if i < n - 1 {
        lemma_write_back_upto_at(q, outs, store, n - 1, i);
    }
}

/// A component just inserted is what an immediately following query that
/// asks for shared access to its type observes: the fetched row for that
/// descriptor equals the inserted row.
pub proof fn lemma_insert_then_shared_query(
    store: Map<u64, Seq<i64>>,
    key: u64,
    c: Seq<i64>,
    q: Seq<Access>,
    i: int,
)
    requires
        0 <= i < q.len(),
        q[i] == (Access { mode: RefType::Shared, key }),
    ensures
        store.insert(key, c).contains_key(key),
        fetch_store(q, store.insert(key, c))[i] == c,
{
}

/// An exclusive descriptor's writeback is observed afterwards: where the
/// query hits and no later descriptor writes the same component type, the
/// store a system application leaves holds, under that type, exactly the
/// row the callback yielded for that slot — not the pre-mutation value.
pub proof fn lemma_exclusive_writeback_observed(
    sys: QueryHandler,
    store: Map<u64, Seq<i64>>,
    i: int,
)
    requires
        0 <= i < sys.query@.len(),
        sys.query@[i].mode.is_mut(),
        forall|j: int| i < j < sys.query@.len() ==> (#[trigger] sys.query@[j]).key
            != sys.query@[i].key,
        query_hits(sys.query@, store),
    ensures
        apply_system(sys, store).contains_key(sys.query@[i].key),
        apply_system(sys, store)[sys.query@[i].key] == callback_out(
            sys.callback,
            fetch_store(sys.query@, store),
        )[i],
{
    let outs = callback_out(sys.callback, fetch_store(sys.query@, store));
    lemma_write_back_upto_at(sys.query@, outs, store, sys.query@.len() as int, i);
}

/// A query of shared-only descriptors never changes any stored component
/// value, whatever its callback yields: the application leaves the store
/// exactly as it was.
pub proof fn lemma_shared_only_preserves_store(sys: QueryHandler, store: Map<u64, Seq<i64>>)
    requires
        forall|i: int| 0 <= i < sys.query@.len() ==> !(#[trigger] sys.query@[i]).mode.is_mut(),
    ensures
        apply_system(sys, store) == store,
{
    if query_hits(sys.query@, store) {
        let outs = callback_out(sys.callback, fetch_store(sys.query@, store));
        lemma_write_back_upto_no_mut(sys.query@, outs, store, sys.query@.len() as int);
    }
}

/// With no exclusive descriptor among the first `n`, the writeback leaves
/// the store untouched.
proof fn lemma_write_back_upto_no_mut(
    q: Seq<Access>,
    outs: Seq<Seq<i64>>,
    store: Map<u64, Seq<i64>>,
    n: int,
)
    requires
        n <= q.len(),
        forall|j: int| 0 <= j < n ==> !(#[trigger] q[j]).mode.is_mut(),
    ensures
        write_back_upto(q, outs, store, n) == store,
    decreases n,
{
    if n > 0 {
        lemma_write_back_upto_no_mut(q, outs, store, n - 1);
    }
}

/// A query naming an absent component type performs no callback at all:
/// the application is a silent no-op that leaves every stored component,
/// the present ones included, unchanged.
pub proof fn lemma_missing_component_skips(sys: QueryHandler, store: Map<u64, Seq<i64>>, i: int)
    requires
        0 <= i < sys.query@.len(),
        !store.contains_key(sys.query@[i].key),
    ensures
        apply_system(sys, store) == store,
{
}

/// One system applied to every entity's store, in creation order.
pub open spec fn apply_system_all(sys: QueryHandler, ents: Seq<Map<u64, Seq<i64>>>) -> Seq<
    Map<u64, Seq<i64>>,
> {
    Seq::new(ents.len(), |i: int| apply_system(sys, ents[i]))
}

/// One tick: every system, in registration order, applied to every
/// entity's store. A later system finds what earlier systems of the same
/// tick wrote back.
pub open spec fn run_systems(systems: Seq<QueryHandler>, ents: Seq<Map<u64, Seq<i64>>>) -> Seq<
    Map<u64, Seq<i64>>,
>
    decreases systems.len(),
{
    if systems.len() == 0 {
        ents
    } else {
        apply_system_all(systems.last(), run_systems(systems.drop_last(), ents))
    }
}

/// Two systems registered in order run in that order within one tick: the
/// second is applied to what the first left of each entity's store, so the
/// second observes the first's writebacks of the same tick. The reverse
/// never holds — what the first observes is the store from before the
/// tick, untouched by the second.
pub proof fn lemma_tick_order(
    s1: QueryHandler,
    s2: QueryHandler,
    ents: Seq<Map<u64, Seq<i64>>>,
    i: int,
)
    requires
        0 <= i < ents.len(),
    ensures
        run_systems(seq![s1, s2], ents).len() == ents.len(),
        run_systems(seq![s1, s2], ents)[i] == apply_system(s2, apply_system(s1, ents[i])),
{
    let ss = seq![s1, s2];
    assert(ss.drop_last() =~= seq![s1]);
    assert(seq![s1].drop_last() =~= Seq::<QueryHandler>::empty());
    assert(run_systems(Seq::<QueryHandler>::empty(), ents) == ents);
    assert(run_systems(seq![s1], ents) == apply_system_all(s1, ents));
    assert(run_systems(ss, ents) == apply_system_all(s2, apply_system_all(s1, ents)));
}

/// The stores a sequence of entities denotes.
pub open spec fn entity_views(es: Seq<EntityData>) -> Seq<Map<u64, Seq<i64>>> {
    Seq::new(es.len(), |i: int| es[i]@)
}

/// Drives one tick over the given systems and entities.
pub(crate) fn run_tick(systems: &Vec<QueryHandler>, entities: &mut Vec<EntityData>)
    requires
        forall|k: int| 0 <= k < old(entities)@.len() ==> (#[trigger] old(entities)@[k]).wf(),
    ensures
        forall|k: int| 0 <= k < final(entities)@.len() ==> (#[trigger] final(entities)@[k]).wf(),
        entity_views(final(entities)@) == run_systems(systems@, entity_views(old(entities)@)),
{
    let mut si: usize = 0;
    while si < systems.len()
        invariant
            si <= systems@.len(),
            forall|k: int| 0 <= k < entities@.len() ==> (#[trigger] entities@[k]).wf(),
            entity_views(entities@) == run_systems(
                systems@.take(si as int),
                entity_views(old(entities)@),
            ),
        decreases systems@.len() - si,
    {
        let sys = &systems[si];
        let ghost snap = entities@;
        let mut ei: usize = 0;
        while ei < entities.len()
            invariant
                ei <= entities@.len(),
                entities@.len() == snap.len(),
                forall|k: int| 0 <= k < entities@.len() ==> (#[trigger] entities@[k]).wf(),
                forall|k: int| ei <= k < entities@.len() ==> entities@[k] == snap[k],
                forall|k: int|
                    0 <= k < ei ==> (#[trigger] entities@[k])@ == apply_system(*sys, snap[k]@),
            decreases entities@.len() - ei,
        {
            let e = crate::vec_index_mut(entities, ei);
            sys.call_with_data(e);
            ei += 1;
        }
        proof {
            assert(entity_views(entities@) =~= apply_system_all(*sys, entity_views(snap)));
            assert(systems@.take(si + 1).drop_last() =~= systems@.take(si as int));
            assert(systems@.take(si + 1).last() == systems@[si as int]);
        }
        si += 1;
    }
    proof {
        assert(systems@.take(systems@.len() as int) =~= systems@);
    }
}

} // verus!

