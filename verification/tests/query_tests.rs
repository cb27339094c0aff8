use ecs::component::Backing;
use ecs::query::{evaluate, Query};
use ecs::tup_append::TupAppend;
use ecs::world::World;

#[derive(PartialEq, Debug, Clone, Copy)]
enum Cmp {
    A(isize),
    B(isize),
}

const A_KEY: u64 = 10;
const B_KEY: u64 = 20;

fn sample_world() -> (World<Cmp>, Vec<ecs::entity::Entity>) {
    let mut world: World<Cmp> = World::new();
    world.register_component(A_KEY, Backing::Dense).unwrap();
    world.register_component(B_KEY, Backing::Sparse).unwrap();

    // four entities carrying {A}, {A,B}, {B}, {}
    let e0 = world.create_entity();
    world.assign_component(&e0, A_KEY, Cmp::A(0));
    let e1 = world.create_entity();
    world.assign_component(&e1, A_KEY, Cmp::A(1));
    world.assign_component(&e1, B_KEY, Cmp::B(1));
    let e2 = world.create_entity();
    world.assign_component(&e2, B_KEY, Cmp::B(2));
    let e3 = world.create_entity();
    (world, vec![e0, e1, e2, e3])
}

#[test]
fn query_with_a_without_b() {
    let (world, entities) = sample_world();
    let query = Query { required: vec![A_KEY], excluded: vec![B_KEY], optional: vec![] };
    let rows = world.query(&query);
    assert_eq!(rows.len(), 1);
    assert_eq!(rows[0].entity, entities[0]);
    assert_eq!(rows[0].required, vec![Cmp::A(0)]);
    assert_eq!(rows[0].optional.len(), 0);
}

#[test]
fn query_with_b_optional_a() {
    let (world, entities) = sample_world();
    let query = Query { required: vec![B_KEY], excluded: vec![], optional: vec![A_KEY] };
    let rows = world.query(&query);
    assert_eq!(rows.len(), 2);
    assert_eq!(rows[0].entity, entities[1]);
    assert_eq!(rows[0].required, vec![Cmp::B(1)]);
    assert_eq!(rows[0].optional, vec![Some(Cmp::A(1))]);
    assert_eq!(rows[1].entity, entities[2]);
    assert_eq!(rows[1].required, vec![Cmp::B(2)]);
    assert_eq!(rows[1].optional, vec![None]);
}

#[test]
fn query_with_no_clauses_yields_every_live_entity() {
    let (mut world, entities) = sample_world();
    world.destroy_entity(entities[2]);
    let query = Query { required: vec![], excluded: vec![], optional: vec![] };
    let rows = world.query(&query);
    assert_eq!(rows.len(), 3);
    assert_eq!(rows[0].entity, entities[0]);
    assert_eq!(rows[1].entity, entities[1]);
    assert_eq!(rows[2].entity, entities[3]);
}

#[test]
fn query_skips_destroyed_entities() {
    let (mut world, entities) = sample_world();
    world.destroy_entity(entities[1]);
    let query = Query { required: vec![A_KEY], excluded: vec![], optional: vec![] };
    let rows = world.query(&query);
    assert_eq!(rows.len(), 1);
    assert_eq!(rows[0].entity, entities[0]);
}

#[test]
fn evaluate_runs_against_the_bare_managers() {
    let (world, entities) = sample_world();
    let query = Query { required: vec![A_KEY], excluded: vec![], optional: vec![B_KEY] };
    let rows = evaluate(world.entity_manager(), world.component_manager(), &query);
    assert_eq!(rows.len(), 2);
    assert_eq!(rows[0].entity, entities[0]);
    assert_eq!(rows[0].optional, vec![None]);
    assert_eq!(rows[1].entity, entities[1]);
    assert_eq!(rows[1].optional, vec![Some(Cmp::B(1))]);
}

#[test]
fn tup_append_grows_tuples() {
    let pair = (1usize,).tup_append(2usize);
    assert_eq!(pair, (1usize, 2usize));
    let triple = pair.tup_append(3usize);
    assert_eq!(triple, (1usize, 2usize, 3usize));
    let quad = triple.tup_append(4usize);
    assert_eq!(quad, (1usize, 2usize, 3usize, 4usize));
    let quint = quad.tup_append(5usize);
    assert_eq!(quint, (1usize, 2usize, 3usize, 4usize, 5usize));
    let sext = quint.tup_append(6usize);
    assert_eq!(sext, (1usize, 2usize, 3usize, 4usize, 5usize, 6usize));
}
