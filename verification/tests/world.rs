use campfire::context::Ctx;
use campfire::data;
use campfire::family::Access;
use campfire::system::{self, Callback, Query};
use campfire::{EntityId, World};

const POSITION: u64 = 1;
const SPEED: u64 = 2;
const RECORD: u64 = 3;

fn position_update_system() -> campfire::system::QueryHandler {
    let query = Query::new(vec![Access::exclusive(POSITION), Access::shared(SPEED)]).unwrap();
    system::new(query, Callback::AddFrom)
}

#[test]
fn new_entity_handles_are_sequential() {
    let mut world = World::default();
    let mut ids: Vec<EntityId> = Vec::new();
    for _ in 0..5 {
        ids.push(world.new_entity());
    }
    for (expect, id) in ids.iter().enumerate() {
        assert_eq!(id.0, expect);
    }
}

#[test]
fn shared_query_observes_inserted_value() {
    // A system that copies what it observes through its shared access into
    // an exclusively held component: the observed value is the inserted one.
    let mut world = World::default();
    let e = world.new_entity();
    world.entity_mut(e).extend(vec![
        data::new(SPEED, vec![4, 7]),
        data::new(RECORD, vec![0, 0]),
    ]);
    let query = Query::new(vec![Access::exclusive(RECORD), Access::shared(SPEED)]).unwrap();
    world.systems.push(system::new(query, Callback::CopyFrom));
    world.run();
    assert_eq!(world.entity(e).get(RECORD), Some(vec![4, 7]));
    assert_eq!(world.entity(e).get(SPEED), Some(vec![4, 7]));
}

#[test]
fn exclusive_mutation_is_observed_afterwards() {
    let mut world = World::default();
    let e = world.new_entity();
    world.entity_mut(e).extend(vec![data::new(POSITION, vec![1, 1])]);
    let query = Query::new(vec![Access::exclusive(POSITION)]).unwrap();
    world.systems.push(system::new(query, Callback::SetTo(vec![8, 9])));
    world.run();
    assert_eq!(world.entity(e).get(POSITION), Some(vec![8, 9]));
    // A later tick still observes the mutated value.
    world.run();
    assert_eq!(world.entity(e).get(POSITION), Some(vec![8, 9]));
}

#[test]
fn shared_only_query_changes_nothing() {
    // The callback would replace the first row if any access were
    // exclusive; under shared-only access the store must keep its values.
    let mut world = World::default();
    let e = world.new_entity();
    world.entity_mut(e).extend(vec![
        data::new(POSITION, vec![1, 2]),
        data::new(SPEED, vec![3, 4]),
    ]);
    let query = Query::new(vec![Access::shared(POSITION), Access::shared(SPEED)]).unwrap();
    world.systems.push(system::new(query, Callback::SetTo(vec![999])));
    world.run();
    assert_eq!(world.entity(e).get(POSITION), Some(vec![1, 2]));
    assert_eq!(world.entity(e).get(SPEED), Some(vec![3, 4]));
}

#[test]
fn query_with_missing_component_is_a_no_op() {
    let mut world = World::default();
    let e = world.new_entity();
    world.entity_mut(e).extend(vec![data::new(POSITION, vec![5, 5])]);
    let query = Query::new(vec![Access::exclusive(POSITION), Access::shared(SPEED)]).unwrap();
    world.systems.push(system::new(query, Callback::SetTo(vec![999])));
    world.run();
    assert_eq!(world.entity(e).get(POSITION), Some(vec![5, 5]));
    assert_eq!(world.entity(e).get(SPEED), None);
}

#[test]
fn later_system_sees_earlier_writeback_same_tick() {
    let mut world = World::default();
    let e = world.new_entity();
    world.entity_mut(e).extend(vec![
        data::new(POSITION, vec![1]),
        data::new(RECORD, vec![0]),
    ]);
    let write = Query::new(vec![Access::exclusive(POSITION)]).unwrap();
    let read = Query::new(vec![Access::exclusive(RECORD), Access::shared(POSITION)]).unwrap();
    world.systems.push(system::new(write, Callback::SetTo(vec![2])));
    world.systems.push(system::new(read, Callback::CopyFrom));
    world.run();
    // The reader ran after the writer within the tick.
    assert_eq!(world.entity(e).get(RECORD), Some(vec![2]));
}

#[test]
fn earlier_system_never_sees_later_writeback_same_tick() {
    let mut world = World::default();
    let e = world.new_entity();
    world.entity_mut(e).extend(vec![
        data::new(POSITION, vec![1]),
        data::new(RECORD, vec![0]),
    ]);
    let read = Query::new(vec![Access::exclusive(RECORD), Access::shared(POSITION)]).unwrap();
    let write = Query::new(vec![Access::exclusive(POSITION)]).unwrap();
    world.systems.push(system::new(read, Callback::CopyFrom));
    world.systems.push(system::new(write, Callback::SetTo(vec![2])));
    world.run();
    // The reader ran first: it copied the pre-tick value.
    assert_eq!(world.entity(e).get(RECORD), Some(vec![1]));
    assert_eq!(world.entity(e).get(POSITION), Some(vec![2]));
}

#[test]
fn position_gains_speed_each_tick() {
    let mut world = World::default();
    let e = world.new_entity();
    world.entity_mut(e).extend(vec![
        data::new(POSITION, vec![0, 0]),
        data::new(SPEED, vec![4, 7]),
    ]);
    world.systems.push(position_update_system());
    world.run();
    assert_eq!(world.entity(e).get(POSITION), Some(vec![4, 7]));
    assert_eq!(world.entity(e).get(SPEED), Some(vec![4, 7]));
    world.run();
    assert_eq!(world.entity(e).get(POSITION), Some(vec![8, 14]));
}

#[test]
fn speed_without_position_stays_put() {
    let mut world = World::default();
    let e = world.new_entity();
    world.entity_mut(e).extend(vec![data::new(SPEED, vec![1, 1])]);
    world.systems.push(position_update_system());
    world.run();
    assert_eq!(world.entity(e).get(SPEED), Some(vec![1, 1]));
    assert_eq!(world.entity(e).get(POSITION), None);
}

#[test]
fn a_system_visits_every_entity() {
    let mut world = World::default();
    let a = world.new_entity();
    let b = world.new_entity();
    let c = world.new_entity();
    world.entity_mut(a).extend(vec![data::new(POSITION, vec![10])]);
    world.entity_mut(b).extend(vec![data::new(POSITION, vec![20])]);
    world.entity_mut(c).extend(vec![data::new(SPEED, vec![0])]);
    let query = Query::new(vec![Access::exclusive(POSITION)]).unwrap();
    world.systems.push(system::new(query, Callback::AddTo(vec![1])));
    world.run();
    assert_eq!(world.entity(a).get(POSITION), Some(vec![11]));
    assert_eq!(world.entity(b).get(POSITION), Some(vec![21]));
    assert_eq!(world.entity(c).get(POSITION), None);
    assert_eq!(world.entity(c).get(SPEED), Some(vec![0]));
}

#[test]
fn keep_callback_leaves_rows_as_fetched() {
    let mut world = World::default();
    let e = world.new_entity();
    world.entity_mut(e).extend(vec![data::new(POSITION, vec![3, 4])]);
    let query = Query::new(vec![Access::exclusive(POSITION)]).unwrap();
    world.systems.push(system::new(query, Callback::Keep));
    world.run();
    assert_eq!(world.entity(e).get(POSITION), Some(vec![3, 4]));
}

#[test]
fn copy_from_needs_a_second_slot() {
    // With a single-slot query, the copying kind has no source slot and
    // leaves every row unchanged.
    let mut world = World::default();
    let e = world.new_entity();
    world.entity_mut(e).extend(vec![data::new(POSITION, vec![6])]);
    let query = Query::new(vec![Access::exclusive(POSITION)]).unwrap();
    world.systems.push(system::new(query, Callback::CopyFrom));
    world.run();
    assert_eq!(world.entity(e).get(POSITION), Some(vec![6]));
}

#[test]
fn addition_wraps_on_overflow() {
    let mut world = World::default();
    let e = world.new_entity();
    world.entity_mut(e).extend(vec![data::new(POSITION, vec![i64::MAX])]);
    let query = Query::new(vec![Access::exclusive(POSITION)]).unwrap();
    world.systems.push(system::new(query, Callback::AddTo(vec![1])));
    world.run();
    assert_eq!(world.entity(e).get(POSITION), Some(vec![i64::MIN]));
}

#[test]
fn addition_keeps_fields_past_the_added_row() {
    let mut world = World::default();
    let e = world.new_entity();
    world.entity_mut(e).extend(vec![data::new(POSITION, vec![1, 2, 3])]);
    let query = Query::new(vec![Access::exclusive(POSITION)]).unwrap();
    world.systems.push(system::new(query, Callback::AddTo(vec![10])));
    world.run();
    assert_eq!(world.entity(e).get(POSITION), Some(vec![11, 2, 3]));
}

#[test]
fn ctx_drives_the_same_tick() {
    let mut ctx = Ctx::default();
    let e = ctx.new_entity();
    assert_eq!(e.0, 0);
    ctx.entities[e.0].extend(vec![
        data::new(POSITION, vec![0, 0]),
        data::new(SPEED, vec![4, 7]),
    ]);
    ctx.systems.push(position_update_system());
    ctx.next_update();
    assert_eq!(ctx.entities[e.0].get(POSITION), Some(vec![4, 7]));
    ctx.next_update();
    assert_eq!(ctx.entities[e.0].get(POSITION), Some(vec![8, 14]));
}

#[test]
fn ctx_handles_are_sequential() {
    let mut ctx = Ctx::default();
    assert_eq!(ctx.new_entity().0, 0);
    assert_eq!(ctx.new_entity().0, 1);
    assert_eq!(ctx.new_entity().0, 2);
}

#[test]
fn run_without_systems_or_entities_is_fine() {
    let mut world = World::default();
    world.run();
    let e = world.new_entity();
    world.run();
    assert_eq!(world.entity(e).get(POSITION), None);
}
