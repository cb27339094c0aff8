use ecs::component::{Backing, ComponentList, ComponentManager, DenseList, SparseList};
use ecs::entity::EntityManager;
use ecs::EcsError;

#[derive(PartialEq, Debug, Clone, Copy)]
enum TestComponent {
    Unit,
    Tuple(isize),
    Field(isize),
}

const UNIT_KEY: u64 = 1;
const TUPLE_KEY: u64 = 2;
const FIELD_KEY: u64 = 3;

#[test]
fn register_components() {
    let mut component_manager: ComponentManager<TestComponent> = ComponentManager::new(256);

    // test different backing structures
    component_manager.register_component(UNIT_KEY, Backing::Dense).unwrap();
    component_manager.register_component(TUPLE_KEY, Backing::Sparse).unwrap();
    component_manager.register_component(FIELD_KEY, Backing::Dense).unwrap();
}

#[test]
fn unassigned_components() {
    let mut component_manager: ComponentManager<TestComponent> = ComponentManager::new(256);
    let mut entity_manager: EntityManager = EntityManager::new(256);

    component_manager.register_component(UNIT_KEY, Backing::Dense).unwrap();
    component_manager.register_component(TUPLE_KEY, Backing::Sparse).unwrap();
    component_manager.register_component(FIELD_KEY, Backing::Dense).unwrap();

    let entity = entity_manager.create_entity();
    component_manager.entity_created(&entity);

    // test unassigned components are None
    let unit_component = component_manager.get_component(&entity, UNIT_KEY);
    assert!(unit_component.is_none());

    let tuple_component = component_manager.get_component(&entity, TUPLE_KEY);
    assert!(tuple_component.is_none());

    let component = component_manager.get_component(&entity, FIELD_KEY);
    assert!(component.is_none());
}

#[test]
fn assigned_components() {
    let mut component_manager: ComponentManager<TestComponent> = ComponentManager::new(256);
    let mut entity_manager: EntityManager = EntityManager::new(256);

    component_manager.register_component(UNIT_KEY, Backing::Dense).unwrap();
    component_manager.register_component(TUPLE_KEY, Backing::Sparse).unwrap();
    component_manager.register_component(FIELD_KEY, Backing::Dense).unwrap();

    let entity = entity_manager.create_entity();
    component_manager.entity_created(&entity);

    component_manager.assign_component(&entity, UNIT_KEY, TestComponent::Unit);
    component_manager.assign_component(&entity, TUPLE_KEY, TestComponent::Tuple(1));
    component_manager.assign_component(&entity, FIELD_KEY, TestComponent::Field(1));

    // test assigned components
    let unit_component = component_manager.get_component(&entity, UNIT_KEY);
    assert_eq!(unit_component.unwrap(), &TestComponent::Unit);

    let tuple_component = component_manager.get_component(&entity, TUPLE_KEY);
    assert_eq!(tuple_component.unwrap(), &TestComponent::Tuple(1));

    let component = component_manager.get_component(&entity, FIELD_KEY);
    assert_eq!(component.unwrap(), &TestComponent::Field(1));
}

#[test]
fn register_component_twice() {
    let mut component_manager: ComponentManager<TestComponent> = ComponentManager::new(256);

    component_manager.register_component(UNIT_KEY, Backing::Dense).unwrap();
    let second = component_manager.register_component(UNIT_KEY, Backing::Dense);
    assert_eq!(second, Err(EcsError::AlreadyRegistered));
}

#[test]
fn double_registration_leaves_store_unchanged() {
    let mut component_manager: ComponentManager<TestComponent> = ComponentManager::new(256);
    let mut entity_manager: EntityManager = EntityManager::new(256);

    component_manager.register_component(UNIT_KEY, Backing::Dense).unwrap();
    component_manager.register_component(TUPLE_KEY, Backing::Sparse).unwrap();

    let entity = entity_manager.create_entity();
    component_manager.entity_created(&entity);
    component_manager.assign_component(&entity, TUPLE_KEY, TestComponent::Tuple(9));

    let result = component_manager.register_component(TUPLE_KEY, Backing::Dense);
    assert_eq!(result, Err(EcsError::AlreadyRegistered));
    assert_eq!(component_manager.get_components_length(), 2);
    assert_eq!(
        component_manager.get_component(&entity, TUPLE_KEY),
        Some(&TestComponent::Tuple(9))
    );
}

#[test]
fn presence_column_coherence() {
    let mut component_manager: ComponentManager<TestComponent> = ComponentManager::new(256);
    let mut entity_manager: EntityManager = EntityManager::new(256);

    component_manager.register_component(UNIT_KEY, Backing::Dense).unwrap();
    component_manager.register_component(TUPLE_KEY, Backing::Sparse).unwrap();

    let entity = entity_manager.create_entity();
    component_manager.entity_created(&entity);

    // has and get agree after every assign/remove step, for every key
    for key in [UNIT_KEY, TUPLE_KEY] {
        assert_eq!(
            component_manager.has_component(&entity, key),
            component_manager.get_component(&entity, key).is_some()
        );
    }
    component_manager.assign_component(&entity, UNIT_KEY, TestComponent::Unit);
    for key in [UNIT_KEY, TUPLE_KEY] {
        assert_eq!(
            component_manager.has_component(&entity, key),
            component_manager.get_component(&entity, key).is_some()
        );
    }
    component_manager.assign_component(&entity, TUPLE_KEY, TestComponent::Tuple(4));
    component_manager.remove_component(&entity, UNIT_KEY);
    for key in [UNIT_KEY, TUPLE_KEY] {
        assert_eq!(
            component_manager.has_component(&entity, key),
            component_manager.get_component(&entity, key).is_some()
        );
    }
    component_manager.remove_component(&entity, TUPLE_KEY);
    for key in [UNIT_KEY, TUPLE_KEY] {
        assert_eq!(
            component_manager.has_component(&entity, key),
            component_manager.get_component(&entity, key).is_some()
        );
    }
}

#[test]
fn assign_overwrites_without_error() {
    let mut component_manager: ComponentManager<TestComponent> = ComponentManager::new(256);
    let mut entity_manager: EntityManager = EntityManager::new(256);

    component_manager.register_component(FIELD_KEY, Backing::Dense).unwrap();
    let entity = entity_manager.create_entity();
    component_manager.entity_created(&entity);

    component_manager.assign_component(&entity, FIELD_KEY, TestComponent::Field(1));
    component_manager.assign_component(&entity, FIELD_KEY, TestComponent::Field(2));
    assert_eq!(
        component_manager.get_component(&entity, FIELD_KEY),
        Some(&TestComponent::Field(2))
    );
}

#[test]
fn bitset_growth_preserves_existing_presence() {
    let mut component_manager: ComponentManager<TestComponent> = ComponentManager::new(256);
    let mut entity_manager: EntityManager = EntityManager::new(256);

    component_manager.register_component(UNIT_KEY, Backing::Dense).unwrap();

    let mut entities: Vec<ecs::entity::Entity> = Vec::new();
    for _ in 0..3 {
        let entity = entity_manager.create_entity();
        component_manager.entity_created(&entity);
        component_manager.assign_component(&entity, UNIT_KEY, TestComponent::Unit);
        entities.push(entity);
    }

    component_manager.register_component(TUPLE_KEY, Backing::Sparse).unwrap();

    for entity in &entities {
        assert!(component_manager.has_component(entity, UNIT_KEY));
        assert!(!component_manager.has_component(entity, TUPLE_KEY));
    }
}

#[test]
fn destroyed_entity_row_is_cleared() {
    let mut component_manager: ComponentManager<TestComponent> = ComponentManager::new(256);
    let mut entity_manager: EntityManager = EntityManager::new(256);

    component_manager.register_component(UNIT_KEY, Backing::Dense).unwrap();
    let entity = entity_manager.create_entity();
    component_manager.entity_created(&entity);
    component_manager.assign_component(&entity, UNIT_KEY, TestComponent::Unit);
    assert!(component_manager.has_component(&entity, UNIT_KEY));

    component_manager.entity_destroyed(&entity);
    // the column may keep stale data; logical presence is governed by the bit
    assert!(!component_manager.has_component(&entity, UNIT_KEY));
    assert!(component_manager.get_component(&entity, UNIT_KEY).is_none());
}

#[test]
fn component_data_records_slots_in_registration_order() {
    let mut component_manager: ComponentManager<TestComponent> = ComponentManager::new(256);
    component_manager.register_component(UNIT_KEY, Backing::Dense).unwrap();
    component_manager.register_component(TUPLE_KEY, Backing::Sparse).unwrap();

    assert_eq!(component_manager.get_component_data(UNIT_KEY).index, 0);
    assert_eq!(component_manager.get_component_data(UNIT_KEY).key, UNIT_KEY);
    assert_eq!(component_manager.get_component_data(TUPLE_KEY).index, 1);
    assert_eq!(component_manager.get_components_length(), 2);
}

#[test]
fn entity_component_mask_tracks_bits() {
    let mut component_manager: ComponentManager<TestComponent> = ComponentManager::new(256);
    let mut entity_manager: EntityManager = EntityManager::new(256);

    component_manager.register_component(UNIT_KEY, Backing::Dense).unwrap();
    component_manager.register_component(TUPLE_KEY, Backing::Sparse).unwrap();
    let entity = entity_manager.create_entity();
    component_manager.entity_created(&entity);
    component_manager.assign_component(&entity, TUPLE_KEY, TestComponent::Tuple(5));

    let mask = component_manager.get_entity_component_mask(&entity);
    assert_eq!(mask.len(), 2);
    assert_eq!(mask[0], false);
    assert_eq!(mask[1], true);
}

#[test]
fn dense_list_operations() {
    let mut list: DenseList<TestComponent> = DenseList::new();
    assert!(!list.contains_key(0));
    list.insert(3, TestComponent::Field(7));
    assert!(list.contains_key(3));
    assert!(!list.contains_key(2));
    assert_eq!(list.get(3), Some(&TestComponent::Field(7)));
    assert_eq!(list.get(1), None);
    assert_eq!(list.remove(3), Some(TestComponent::Field(7)));
    assert_eq!(list.remove(3), None);
    assert!(!list.contains_key(3));
}

#[test]
fn sparse_list_operations() {
    let mut list: SparseList<TestComponent> = SparseList::new();
    assert!(!list.contains_key(0));
    list.insert(10, TestComponent::Tuple(1));
    list.insert(20, TestComponent::Tuple(2));
    list.insert(10, TestComponent::Tuple(3));
    assert_eq!(list.get(10), Some(&TestComponent::Tuple(3)));
    assert_eq!(list.get(20), Some(&TestComponent::Tuple(2)));
    assert_eq!(list.get(30), None);
    assert_eq!(list.remove(10), Some(TestComponent::Tuple(3)));
    assert_eq!(list.remove(10), None);
    assert!(list.contains_key(20));
}

#[test]
fn get_component_mut_updates_in_place() {
    let mut component_manager: ComponentManager<TestComponent> = ComponentManager::new(256);
    let mut entity_manager: EntityManager = EntityManager::new(256);

    component_manager.register_component(FIELD_KEY, Backing::Dense).unwrap();
    component_manager.register_component(TUPLE_KEY, Backing::Sparse).unwrap();
    let entity = entity_manager.create_entity();
    component_manager.entity_created(&entity);

    component_manager.assign_component(&entity, FIELD_KEY, TestComponent::Field(1));
    component_manager.assign_component(&entity, TUPLE_KEY, TestComponent::Tuple(1));

    if let Some(value) = component_manager.get_component_mut(&entity, FIELD_KEY) {
        *value = TestComponent::Field(10);
    }
    if let Some(value) = component_manager.get_component_mut(&entity, TUPLE_KEY) {
        *value = TestComponent::Tuple(20);
    }
    assert_eq!(
        component_manager.get_component(&entity, FIELD_KEY),
        Some(&TestComponent::Field(10))
    );
    assert_eq!(
        component_manager.get_component(&entity, TUPLE_KEY),
        Some(&TestComponent::Tuple(20))
    );

    component_manager.remove_component(&entity, FIELD_KEY);
    assert!(component_manager.get_component_mut(&entity, FIELD_KEY).is_none());
}

#[test]
fn unregistered_key_is_reported() {
    let mut component_manager: ComponentManager<TestComponent> = ComponentManager::new(256);
    component_manager.register_component(UNIT_KEY, Backing::Dense).unwrap();
    assert!(component_manager.is_registered(UNIT_KEY));
    assert!(!component_manager.is_registered(TUPLE_KEY));
}
