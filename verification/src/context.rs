//! An open variant of the world: both its lists are public fields.
//!
//! `Ctx` drives the same tick as `World`, but exposes the entity list as
//! well as the system list for direct wiring. `next_update` is its name
//! for advancing one tick.

use vstd::prelude::*;

use crate::{EntityData, EntityId};
use crate::system::{QueryHandler, entity_views, run_systems, run_tick};

verus! {

/// An execution context owning systems and entity stores, both public.
pub struct Ctx {
    /// The systems, in registration order.
    pub systems: Vec<QueryHandler>,
    /// The entity stores, in creation order.
    pub entities: Vec<EntityData>,
}

impl Ctx {
    /// Well-formed: every entity's store is.
    pub open spec fn wf(&self) -> bool {
        forall|k: int| 0 <= k < self.entities@.len() ==> (#[trigger] self.entities@[k]).wf()
    }

    /// Appends a fresh, empty entity store and returns its handle: the
    /// next sequential position. Never fails; handles are never reused.
    pub fn new_entity(&mut self) -> (id: EntityId)
        requires
            old(self).wf(),
        ensures
            final(self).wf(),
            final(self).systems == old(self).systems,
            id.0 == old(self).entities@.len(),
            entity_views(final(self).entities@) == entity_views(old(self).entities@).push(
                Map::<u64, Seq<i64>>::empty(),
            ),
    {
        let id = self.entities.len();
        self.entities.push(EntityData::empty());
        EntityId(id)
    }

    /// Advances one tick: every system, in registration order, is applied
    /// to every entity store, in creation order.
    pub fn next_update(&mut self)
        requires
            old(self).wf(),
        ensures
            final(self).wf(),
            final(self).systems == old(self).systems,
            entity_views(final(self).entities@) == run_systems(
                old(self).systems@,
                entity_views(old(self).entities@),
            ),
    {
        run_tick(&self.systems, &mut self.entities);
    }
}

impl Default for Ctx {
    /// The default context holds no systems and no entities.
    fn default() -> (c: Ctx)
        ensures
            c.wf(),
            c.systems@ == Seq::<QueryHandler>::empty(),
            c.entities@ == Seq::<EntityData>::empty(),
    {
        Ctx { systems: Vec::new(), entities: Vec::new() }
    }
}

} // verus!
