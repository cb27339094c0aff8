//! The query evaluator: given required, excluded, and optional component
//! type keys, walks the live entities in increasing index order, keeps
//! exactly those whose presence bits satisfy the predicate, and
//! materializes a result row per kept entity.  Column data is only fetched
//! after the presence test passes.

use crate::component::{component_of, has_spec, registered, slot_of, ComponentManager, StoreModel};
use crate::entity::{live_index, AllocModel, Entity, EntityManager};
use vstd::prelude::*;

verus! {

/// A conjunction of clauses over component type keys: `required` types
/// must be present, `excluded` types must be absent, `optional` types are
/// attached to the row as present-or-not without filtering.
pub struct Query {
    pub required: Vec<u64>,
    pub excluded: Vec<u64>,
    pub optional: Vec<u64>,
}

/// One result of a query: the entity, one value per required type in
/// declared order, and one optional value per optional type in declared
/// order.  Excluded types contribute nothing.
pub struct QueryRow<C> {
    pub entity: Entity,
    pub required: Vec<C>,
    pub optional: Vec<Option<C>>,
}

/// Whether every type key a query names has been registered.
pub open spec fn query_keys_registered<C>(s: StoreModel<C>, q: Query) -> bool {
    &&& forall|j: int| 0 <= j < q.required@.len() ==> registered(s, #[trigger] q.required@[j])
    &&& forall|j: int| 0 <= j < q.excluded@.len() ==> registered(s, #[trigger] q.excluded@[j])
    &&& forall|j: int| 0 <= j < q.optional@.len() ==> registered(s, #[trigger] q.optional@[j])
}

/// The presence predicate of a query at an entity index: every required
/// type's bit is set and every excluded type's bit is unset.
pub open spec fn clause_match<C>(s: StoreModel<C>, q: Query, i: int) -> bool {
    &&& forall|j: int|
        0 <= j < q.required@.len() ==> has_spec(s, i, slot_of(s, #[trigger] q.required@[j]))
    &&& forall|j: int|
        0 <= j < q.excluded@.len() ==> !has_spec(s, i, slot_of(s, #[trigger] q.excluded@[j]))
}

/// A well-formed query result row for an entity: the entity is live with
/// its current version, its presence bits satisfy the clauses, and the
/// attached values are exactly the columns' values for it.
pub open spec fn row_ok<C>(m: AllocModel, s: StoreModel<C>, q: Query, row: QueryRow<C>) -> bool {
    &&& live_index(m, row.entity.index as int)
    &&& row.entity.version == m.versions[row.entity.index as int]
    &&& clause_match(s, q, row.entity.index as int)
    &&& row.required@.len() == q.required@.len()
    &&& forall|j: int|
        0 <= j < q.required@.len() ==> #[trigger] row.required@[j] == s.cols[slot_of(
            s,
            q.required@[j],
        )][row.entity.index as int]
    &&& row.optional@.len() == q.optional@.len()
    &&& forall|j: int|
        0 <= j < q.optional@.len() ==> #[trigger] row.optional@[j] == component_of(
            s,
            row.entity.index as int,
            slot_of(s, q.optional@[j]),
        )
}

/// Tests an entity's presence bits against the query's clauses, one clause
/// at a time; equivalent to the mask comparison over the whole bit row.
fn entity_matches<C>(store: &ComponentManager<C>, entity: &Entity, query: &Query) -> (r: bool)
    requires
        store.wf(),
        query_keys_registered(store@, *query),
        entity.index < store@.masks.len(),
    ensures
        r == clause_match(store@, *query, entity.index as int),
{
    let nr = query.required.len();
    let mut j: usize = 0;
    while j < nr
        invariant
            store.wf(),
            query_keys_registered(store@, *query),
            entity.index < store@.masks.len(),
            j <= nr,
            nr == query.required@.len(),
            forall|j2: int|
                0 <= j2 < j ==> has_spec(
                    store@,
                    entity.index as int,
                    slot_of(store@, #[trigger] query.required@[j2]),
                ),
        decreases nr - j,
    {
        if !store.has_component(entity, query.required[j]) {
            return false;
        }
        j = j + 1;
    }
    let ne = query.excluded.len();
    let mut k: usize = 0;
    while k < ne
        invariant
            store.wf(),
            query_keys_registered(store@, *query),
            entity.index < store@.masks.len(),
            k <= ne,
            ne == query.excluded@.len(),
            forall|j2: int|
                0 <= j2 < query.required@.len() ==> has_spec(
                    store@,
                    entity.index as int,
                    slot_of(store@, #[trigger] query.required@[j2]),
                ),
            forall|k2: int|
                0 <= k2 < k ==> !has_spec(
                    store@,
                    entity.index as int,
                    slot_of(store@, #[trigger] query.excluded@[k2]),
                ),
        decreases ne - k,
    {
        if store.has_component(entity, query.excluded[k]) {
            return false;
        }
        k = k + 1;
    }
    true
}

/// Materializes the result row of an entity that passed the presence test.
fn materialize_row<C: Copy>(store: &ComponentManager<C>, entity: Entity, query: &Query) -> (r:
    QueryRow<C>)
    requires
        store.wf(),
        query_keys_registered(store@, *query),
        entity.index < store@.masks.len(),
        clause_match(store@, *query, entity.index as int),
    ensures
        r.entity == entity,
        r.required@.len() == query.required@.len(),
        forall|j: int|
            0 <= j < query.required@.len() ==> #[trigger] r.required@[j] == store@.cols[slot_of(
                store@,
                query.required@[j],
            )][entity.index as int],
        r.optional@.len() == query.optional@.len(),
        forall|j: int|
            0 <= j < query.optional@.len() ==> #[trigger] r.optional@[j] == component_of(
                store@,
                entity.index as int,
                slot_of(store@, query.optional@[j]),
            ),
{
    let nr = query.required.len();
    let mut required_values: Vec<C> = Vec::new();
    let mut j: usize = 0;
    while j < nr
        invariant
            store.wf(),
            query_keys_registered(store@, *query),
            entity.index < store@.masks.len(),
            clause_match(store@, *query, entity.index as int),
            j <= nr,
            nr == query.required@.len(),
            required_values@.len() == j,
            forall|j2: int|
                0 <= j2 < j ==> #[trigger] required_values@[j2] == store@.cols[slot_of(
                    store@,
                    query.required@[j2],
                )][entity.index as int],
        decreases nr - j,
    {
        match store.get_component(&entity, query.required[j]) {
            Some(c) => {
                required_values.push(*c);
            },
            None => {
                proof {
                    assert(has_spec(
                        store@,
                        entity.index as int,
                        slot_of(store@, query.required@[j as int]),
                    ));
                    assert(false);
                }
            },
        }
        j = j + 1;
    }
    let no = query.optional.len();
    let mut optional_values: Vec<Option<C>> = Vec::new();
    let mut k: usize = 0;
    while k < no
        invariant
            store.wf(),
            query_keys_registered(store@, *query),
            entity.index < store@.masks.len(),
            k <= no,
            no == query.optional@.len(),
            optional_values@.len() == k,
            forall|k2: int|
                0 <= k2 < k ==> #[trigger] optional_values@[k2] == component_of(
                    store@,
                    entity.index as int,
                    slot_of(store@, query.optional@[k2]),
                ),
        decreases no - k,
    {
        match store.get_component(&entity, query.optional[k]) {
            Some(c) => {
                optional_values.push(Some(*c));
            },
            None => {
                optional_values.push(None);
            },
        }
        k = k + 1;
    }
    QueryRow { entity, required: required_values, optional: optional_values }
}

/// Evaluates a query: walks the live entities in increasing index order
/// and yields one row for exactly those whose presence bits carry every
/// required type and none of the excluded ones.  A fresh walk per call.
pub fn evaluate<C: Copy>(manager: &EntityManager, store: &ComponentManager<C>, query: &Query) -> (r:
    Vec<QueryRow<C>>)
    requires
        manager.wf(),
        store.wf(),
        store@.masks.len() >= manager@.next,
        query_keys_registered(store@, *query),
    ensures
        forall|k1: int, k2: int|
            0 <= k1 < k2 < r@.len() ==> (#[trigger] r@[k1]).entity.index
                < (#[trigger] r@[k2]).entity.index,
        forall|k: int| 0 <= k < r@.len() ==> row_ok(manager@, store@, *query, #[trigger] r@[k]),
        forall|i: int|
            #[trigger] live_index(manager@, i) && clause_match(store@, *query, i)
                ==> exists|k: int| 0 <= k < r@.len() && (#[trigger] r@[k]).entity.index == i,
{
    let mut rows: Vec<QueryRow<C>> = Vec::new();
    let mut it = manager.entities();
    loop
        invariant
            manager.wf(),
            store.wf(),
            store@.masks.len() >= manager@.next,
            query_keys_registered(store@, *query),
            it.position <= manager@.next,
            forall|k1: int, k2: int|
                0 <= k1 < k2 < rows@.len() ==> (#[trigger] rows@[k1]).entity.index
                    < (#[trigger] rows@[k2]).entity.index,
            forall|k: int|
                0 <= k < rows@.len() ==> row_ok(manager@, store@, *query, #[trigger] rows@[k]),
            forall|k: int|
                0 <= k < rows@.len() ==> (#[trigger] rows@[k]).entity.index < it.position,
            forall|i: int|
                0 <= i < it.position && #[trigger] live_index(manager@, i) && clause_match(
                    store@,
                    *query,
                    i,
                ) ==> exists|k: int| 0 <= k < rows@.len() && (#[trigger] rows@[k]).entity.index
                    == i,
        ensures
            forall|i: int|
                0 <= i < manager@.next && #[trigger] live_index(manager@, i) && clause_match(
                    store@,
                    *query,
                    i,
                ) ==> exists|k: int| 0 <= k < rows@.len() && (#[trigger] rows@[k]).entity.index
                    == i,
            forall|k1: int, k2: int|
                0 <= k1 < k2 < rows@.len() ==> (#[trigger] rows@[k1]).entity.index
                    < (#[trigger] rows@[k2]).entity.index,
            forall|k: int|
                0 <= k < rows@.len() ==> row_ok(manager@, store@, *query, #[trigger] rows@[k]),
        decreases manager@.next - it.position,
    {
        let ghost cursor0 = it.position;
        let ghost pre_rows = rows@;
        match it.next(manager) {
            None => {
                break ;
            },
            Some(entity) => {
                let matched = entity_matches(store, &entity, query);
                if matched {
                    let row = materialize_row(store, entity, query);
                    rows.push(row);
                }
                proof {
                    assert forall|i: int|
                        0 <= i < it.position && #[trigger] live_index(manager@, i) && clause_match(
                            store@,
                            *query,
                            i,
                        ) implies exists|k: int|
                        0 <= k < rows@.len() && (#[trigger] rows@[k]).entity.index == i by {
                        if i < cursor0 {
                            let k = choose|k: int|
                                0 <= k < pre_rows.len() && (#[trigger] pre_rows[k]).entity.index
                                    == i;
                            assert(rows@[k].entity.index == i);
                        } else if i < entity.index {
                            assert(!live_index(manager@, i));
                        } else {
                            assert(i == entity.index as int);
                            assert(matched);
                            assert(rows@[rows@.len() - 1].entity.index == i);
                        }
                    }
                }
            },
        }
    }
    rows
}

} // verus!
