use ecs::entity::{Entity, EntityManager};

#[test]
fn created_entity_is_valid() {
    let mut entity_manager: EntityManager = EntityManager::new(256);

    let entity = entity_manager.create_entity();
    assert!(entity_manager.is_valid(&entity));
}

#[test]
fn deleted_entity_is_invalid() {
    let mut entity_manager: EntityManager = EntityManager::new(256);

    let entity1 = entity_manager.create_entity();
    let entity1_clone = entity1.clone();

    assert!(entity_manager.is_valid(&entity1_clone));
    entity_manager.destroy_entity(entity1);
    assert!(!entity_manager.is_valid(&entity1_clone));
}

#[test]
fn entity_accessors() {
    let entity = Entity::new(7, 3);
    assert_eq!(entity.index(), 7);
    assert_eq!(entity.version(), 3);
    assert_eq!(entity, Entity::new(7, 3));
    assert!(entity != Entity::new(7, 4));
    assert!(entity != Entity::new(8, 3));
}

#[test]
fn sequential_indices() {
    let mut entity_manager: EntityManager = EntityManager::new(4);
    let e0 = entity_manager.create_entity();
    let e1 = entity_manager.create_entity();
    let e2 = entity_manager.create_entity();
    assert_eq!(e0.index(), 0);
    assert_eq!(e1.index(), 1);
    assert_eq!(e2.index(), 2);
    assert_eq!(e0.version(), 0);
}

#[test]
fn version_table_grows_past_initial_capacity() {
    let mut entity_manager: EntityManager = EntityManager::new(1);
    let e0 = entity_manager.create_entity();
    let e1 = entity_manager.create_entity();
    let e2 = entity_manager.create_entity();
    assert!(entity_manager.is_valid(&e0));
    assert!(entity_manager.is_valid(&e1));
    assert!(entity_manager.is_valid(&e2));
}

#[test]
fn generational_safety_on_reuse() {
    let mut entity_manager: EntityManager = EntityManager::new(256);

    let stale = entity_manager.create_entity();
    assert_eq!(stale.index(), 0);
    entity_manager.destroy_entity(stale);
    assert!(!entity_manager.is_valid(&stale));

    // free more indices until the reuse threshold is crossed
    for _ in 0..1000 {
        let filler = entity_manager.create_entity();
        entity_manager.destroy_entity(filler);
    }

    let reused = entity_manager.create_entity();
    assert_eq!(reused.index(), 0);
    assert_eq!(reused.version(), 1);
    assert!(entity_manager.is_valid(&reused));
    assert!(!entity_manager.is_valid(&stale));
}

#[test]
fn recycling_delay_holds_back_freed_indices() {
    let mut entity_manager: EntityManager = EntityManager::new(256);

    let first = entity_manager.create_entity();
    assert_eq!(first.index(), 0);
    entity_manager.destroy_entity(first);

    // the index just freed must not be reissued immediately
    let second = entity_manager.create_entity();
    assert_eq!(second.index(), 1);

    // after enough other indices are freed, the oldest one returns first
    entity_manager.destroy_entity(second);
    for _ in 0..999 {
        let filler = entity_manager.create_entity();
        entity_manager.destroy_entity(filler);
    }
    let reused = entity_manager.create_entity();
    assert_eq!(reused.index(), 0);
}

#[test]
fn iteration_skips_destroyed_entities() {
    let mut entity_manager: EntityManager = EntityManager::new(256);
    let e0 = entity_manager.create_entity();
    let e1 = entity_manager.create_entity();
    let e2 = entity_manager.create_entity();
    entity_manager.destroy_entity(e1);

    let mut iterator = entity_manager.entities();
    let mut seen: Vec<ecs::entity::Entity> = Vec::new();
    while let Some(entity) = iterator.next(&entity_manager) {
        seen.push(entity);
    }
    assert_eq!(seen.len(), 2);
    assert_eq!(seen[0], e0);
    assert_eq!(seen[1], e2);
}

#[test]
fn iteration_visits_in_increasing_index_order() {
    let mut entity_manager: EntityManager = EntityManager::new(8);
    for _ in 0..5 {
        entity_manager.create_entity();
    }
    let mut iterator = entity_manager.entities();
    let mut previous: Option<usize> = None;
    while let Some(entity) = iterator.next(&entity_manager) {
        if let Some(p) = previous {
            assert!(p < entity.index());
        }
        previous = Some(entity.index());
    }
    assert_eq!(previous, Some(4));
}
