use ecs::component::Backing;
use ecs::control::{Control, EntityBuilder, EntityModifier};
use ecs::entity::Entity;
use ecs::world::World;
use ecs::EcsError;

#[derive(PartialEq, Debug, Clone, Copy)]
enum Cmp {
    One,
    Value(isize),
    Reference(usize),
}

const CMP1_KEY: u64 = 1;
const VALUE_KEY: u64 = 2;
const REFERENCE_KEY: u64 = 3;

#[test]
fn test_something() {
    assert!(true);
}

#[test]
fn create_entity() {
    let mut world: World<Cmp> = World::new();

    world.create_entity();
}

#[test]
fn destroy_entity() {
    let mut world: World<Cmp> = World::new();

    let entity = world.create_entity();
    world.destroy_entity(entity);
}

#[test]
fn destroy_entity_with_components() {
    let mut world: World<Cmp> = World::new();

    world.register_component(CMP1_KEY, Backing::Dense).unwrap();

    let entity = world.create_entity();

    world.assign_component(&entity, CMP1_KEY, Cmp::One);

    world.destroy_entity(entity);
}

#[test]
fn world_gates_access_by_validity() {
    let mut world: World<Cmp> = World::new();
    world.register_component(VALUE_KEY, Backing::Dense).unwrap();

    let entity = world.create_entity();
    world.assign_component(&entity, VALUE_KEY, Cmp::Value(3));
    assert!(world.is_valid(&entity));
    assert!(world.has_component(&entity, VALUE_KEY));
    assert_eq!(world.get_component(&entity, VALUE_KEY), Some(&Cmp::Value(3)));

    world.destroy_entity(entity);
    assert!(!world.is_valid(&entity));
}

#[test]
fn command_buffer_ordering() {
    let mut world: World<Cmp> = World::new();
    world.register_component(VALUE_KEY, Backing::Dense).unwrap();
    world.register_component(REFERENCE_KEY, Backing::Sparse).unwrap();

    let modified = world.create_entity();
    let doomed = world.create_entity();
    world.assign_component(&doomed, VALUE_KEY, Cmp::Value(1));

    // within one pass: build a new entity, modify an existing entity to
    // reference it (the allocator is deterministic, so its index is the
    // next sequential one), and destroy a third
    let expected_index: usize = 2;
    let mut control: Control<Cmp> = Control::new();
    control.build(EntityBuilder { components: vec![(VALUE_KEY, Cmp::Value(7))] });
    control.modify(modified, EntityModifier::Assign(REFERENCE_KEY, Cmp::Reference(expected_index)));
    control.destroy(doomed);

    // nothing has happened yet: the buffer only records intents
    assert!(world.is_valid(&doomed));
    assert!(!world.has_component(&modified, REFERENCE_KEY));

    let created = world.apply_control(control).unwrap();

    assert_eq!(created.len(), 1);
    let built = created[0];
    assert_eq!(built.index(), expected_index);
    assert!(world.is_valid(&built));
    assert_eq!(world.get_component(&built, VALUE_KEY), Some(&Cmp::Value(7)));
    assert_eq!(
        world.get_component(&modified, REFERENCE_KEY),
        Some(&Cmp::Reference(expected_index))
    );
    assert!(!world.is_valid(&doomed));
}

#[test]
fn control_records_are_replayed_fifo() {
    let mut world: World<Cmp> = World::new();
    world.register_component(VALUE_KEY, Backing::Dense).unwrap();

    let target = world.create_entity();
    let mut control: Control<Cmp> = Control::new();
    control.modify(target, EntityModifier::Assign(VALUE_KEY, Cmp::Value(1)));
    control.modify(target, EntityModifier::Assign(VALUE_KEY, Cmp::Value(2)));
    world.apply_control(control).unwrap();
    assert_eq!(world.get_component(&target, VALUE_KEY), Some(&Cmp::Value(2)));

    let mut control: Control<Cmp> = Control::new();
    control.modify(target, EntityModifier::Remove(VALUE_KEY));
    world.apply_control(control).unwrap();
    assert!(!world.has_component(&target, VALUE_KEY));
}

#[test]
fn apply_rejects_unregistered_key() {
    let mut world: World<Cmp> = World::new();
    world.register_component(VALUE_KEY, Backing::Dense).unwrap();
    let target = world.create_entity();

    let mut control: Control<Cmp> = Control::new();
    control.modify(target, EntityModifier::Assign(REFERENCE_KEY, Cmp::Reference(0)));
    assert_eq!(world.apply_control(control), Err(EcsError::UnregisteredComponent));
    // a rejected buffer changes nothing
    assert!(world.is_valid(&target));
    assert!(!world.has_component(&target, VALUE_KEY));
}

#[test]
fn apply_rejects_stale_target() {
    let mut world: World<Cmp> = World::new();
    world.register_component(VALUE_KEY, Backing::Dense).unwrap();
    let stale = world.create_entity();
    world.destroy_entity(stale);

    let mut control: Control<Cmp> = Control::new();
    control.modify(stale, EntityModifier::Assign(VALUE_KEY, Cmp::Value(1)));
    assert_eq!(world.apply_control(control), Err(EcsError::InvalidEntity));
}

#[test]
fn apply_rejects_duplicate_destroy() {
    let mut world: World<Cmp> = World::new();
    let entity = world.create_entity();
    let other = world.create_entity();

    let mut control: Control<Cmp> = Control::new();
    control.destroy(entity);
    control.destroy(other);
    control.destroy(entity);
    assert_eq!(world.apply_control(control), Err(EcsError::InvalidEntity));
    // destruction is all-or-nothing: both targets are still alive
    assert!(world.is_valid(&entity));
    assert!(world.is_valid(&other));
}

#[test]
fn apply_rejects_version_at_machine_limit() {
    let mut world: World<Cmp> = World::new();
    world.create_entity();

    let mut control: Control<Cmp> = Control::new();
    control.destroy(Entity::new(0, usize::MAX));
    assert_eq!(world.apply_control(control), Err(EcsError::CapacityExhausted));
}

#[test]
fn empty_control_applies_cleanly() {
    let mut world: World<Cmp> = World::new();
    let control: Control<Cmp> = Control::new();
    let created = world.apply_control(control).unwrap();
    assert_eq!(created.len(), 0);
}

#[test]
fn world_components_can_be_updated_in_place() {
    let mut world: World<Cmp> = World::new();
    world.register_component(VALUE_KEY, Backing::Dense).unwrap();
    let entity = world.create_entity();
    world.assign_component(&entity, VALUE_KEY, Cmp::Value(1));

    if let Some(value) = world.get_component_mut(&entity, VALUE_KEY) {
        *value = Cmp::Value(8);
    }
    assert_eq!(world.get_component(&entity, VALUE_KEY), Some(&Cmp::Value(8)));
    world.remove_component(&entity, VALUE_KEY);
    assert!(world.get_component_mut(&entity, VALUE_KEY).is_none());
}

#[test]
fn world_accessors_expose_the_same_state() {
    let mut world: World<Cmp> = World::new();
    world.register_component(VALUE_KEY, Backing::Dense).unwrap();
    let entity = world.create_entity();
    world.assign_component(&entity, VALUE_KEY, Cmp::Value(5));

    assert_eq!(world.get_components_length(), 1);
    assert!(world.is_registered(VALUE_KEY));
    assert!(!world.is_registered(REFERENCE_KEY));
    let mask = world.get_entity_component_mask(&entity);
    assert_eq!(mask.len(), 1);
    assert_eq!(mask[0], true);
    assert_eq!(world.get_component_data(VALUE_KEY).index, 0);

    let entity_manager = world.entity_manager();
    assert!(entity_manager.is_valid(&entity));
    let component_manager = world.component_manager();
    assert!(component_manager.has_component(&entity, VALUE_KEY));
}
