//! The facade that owns one allocator and one store, keeps them in
//! lock-step (every issued index has a presence bit row), and gates
//! component access behind entity validity.  Entities from one world are
//! not usable against another: validity is checked against this world's
//! own version table.

use crate::component::{
    component_of, has_spec, registered, slot_of, spec_assign, spec_clear_row, spec_notify_created,
    spec_register, spec_remove, store_wf, Backing, ComponentData, ComponentList, ComponentManager,
    StoreModel,
};
use crate::control::{
    apply_ok, capacity_ok, keys_ok, replay_builds, replay_destroys, replay_modifiers, targets_ok,
    Control,
};
use crate::entity::{
    alloc_wf, live_index, spec_create, spec_destroy, valid_entity, AllocModel, Entity,
    EntityIterator, EntityManager,
};
use crate::query::{clause_match, evaluate, query_keys_registered, row_ok, Query, QueryRow};
use crate::EcsError;
use vstd::prelude::*;

verus! {

/// The initial slot capacity reserved by a fresh world.
pub const INITIAL_CAPACITY: usize = 256;

/// One world: an entity allocator and a component store that mutate only
/// together.
pub struct World<C> {
    pub(crate) entity_manager: EntityManager,
    pub(crate) component_manager: ComponentManager<C>,
}

impl<C> World<C> {
    /// The allocator's mathematical state.
    pub closed spec fn allocator(&self) -> AllocModel {
        self.entity_manager@
    }

    /// The store's mathematical state.
    pub closed spec fn store(&self) -> StoreModel<C> {
        self.component_manager@
    }

    /// Both halves well-formed, and one presence bit row per issued index.
    pub closed spec fn wf(&self) -> bool {
        &&& self.entity_manager.wf()
        &&& self.component_manager.wf()
        &&& self.component_manager@.masks.len() == self.entity_manager@.next
    }

    /// The well-formedness the closed predicate guarantees, for reasoning
    /// outside this module.
    pub proof fn lemma_wf(&self)
        requires
            self.wf(),
        ensures
            alloc_wf(self.allocator()),
            store_wf(self.store()),
            self.store().masks.len() == self.allocator().next,
    {
    }

    pub fn new() -> (r: World<C>)
        ensures
            r.wf(),
            r.allocator().next == 0,
            r.allocator().free.len() == 0,
            r.store().keys.len() == 0,
            r.store().masks.len() == 0,
    {
        World {
            entity_manager: EntityManager::new(INITIAL_CAPACITY),
            component_manager: ComponentManager::new(INITIAL_CAPACITY),
        }
    }

    /// Issues an entity and announces it to the store, which extends the
    /// presence table with an all-unset row when the index is fresh.
    pub fn create_entity(&mut self) -> (r: Entity)
        requires
            old(self).wf(),
            old(self).allocator().next < usize::MAX,
        ensures
            final(self).wf(),
            final(self).allocator() == spec_create(old(self).allocator()).0,
            final(self).store() == spec_notify_created(old(self).store(), r.index as int),
            r == spec_create(old(self).allocator()).1,
            valid_entity(final(self).allocator(), r),
    {
        let entity = self.entity_manager.create_entity();
        self.component_manager.entity_created(&entity);
        entity
    }

    /// Destroys a valid entity: clears its presence bits, bumps its slot
    /// version, and queues its index for delayed reuse.
    pub fn destroy_entity(&mut self, entity: Entity)
        requires
            old(self).wf(),
            valid_entity(old(self).allocator(), entity),
            !old(self).allocator().free.contains(entity.index),
            entity.version < usize::MAX,
        ensures
            final(self).wf(),
            final(self).allocator() == spec_destroy(old(self).allocator(), entity),
            final(self).store() == spec_clear_row(old(self).store(), entity.index as int),
    {
        self.component_manager.entity_destroyed(&entity);
        self.entity_manager.destroy_entity(entity);
    }

    pub fn is_valid(&self, entity: &Entity) -> (r: bool)
        requires
            self.wf(),
        ensures
            r == valid_entity(self.allocator(), *entity),
    {
        self.entity_manager.is_valid(entity)
    }

    /// Starts a walk over the live entities; drive it with `next` against
    /// this world's allocator.
    pub fn entities(&self) -> (r: EntityIterator)
        ensures
            r.position == 0,
    {
        self.entity_manager.entities()
    }

    /// Read access to the allocator, as an update routine receives it.
    pub fn entity_manager(&self) -> (r: &EntityManager)
        requires
            self.wf(),
        ensures
            r.wf(),
            r@ == self.allocator(),
    {
        &self.entity_manager
    }

    /// Read access to the store, as an update routine receives it.
    pub fn component_manager(&self) -> (r: &ComponentManager<C>)
        requires
            self.wf(),
        ensures
            r.wf(),
            r@ == self.store(),
            r@.masks.len() >= self.allocator().next,
    {
        &self.component_manager
    }

    /// Registers a component type key with a column of the chosen backing;
    /// fails, changing nothing, exactly when the key is already registered.
    pub fn register_component(&mut self, key: u64, backing: Backing) -> (r: Result<(), EcsError>)
        requires
            old(self).wf(),
        ensures
            final(self).wf(),
            final(self).allocator() == old(self).allocator(),
            r is Ok <==> !registered(old(self).store(), key),
            r is Ok ==> final(self).store() == spec_register(old(self).store(), key),
            r is Err ==> *final(self) == *old(self) && r == Err::<(), EcsError>(
                EcsError::AlreadyRegistered,
            ),
    {
        self.component_manager.register_component(key, backing)
    }

    /// Whether a type key has been registered.
    pub fn is_registered(&self, key: u64) -> (r: bool)
        requires
            self.wf(),
        ensures
            r == registered(self.store(), key),
    {
        self.component_manager.is_registered(key)
    }

    /// Adds or replaces a component on a valid entity.
    pub fn assign_component(&mut self, entity: &Entity, key: u64, value: C)
        requires
            old(self).wf(),
            valid_entity(old(self).allocator(), *entity),
            registered(old(self).store(), key),
        ensures
            final(self).wf(),
            final(self).allocator() == old(self).allocator(),
            final(self).store() == spec_assign(
                old(self).store(),
                entity.index as int,
                slot_of(old(self).store(), key),
                value,
            ),
    {
        self.component_manager.assign_component(entity, key, value);
    }

    /// Removes a component from a valid entity.
    pub fn remove_component(&mut self, entity: &Entity, key: u64)
        requires
            old(self).wf(),
            valid_entity(old(self).allocator(), *entity),
            registered(old(self).store(), key),
        ensures
            final(self).wf(),
            final(self).allocator() == old(self).allocator(),
            final(self).store() == spec_remove(
                old(self).store(),
                entity.index as int,
                slot_of(old(self).store(), key),
            ),
    {
        self.component_manager.remove_component(entity, key);
    }

    /// Reads the presence bit of a type for a valid entity.
    pub fn has_component(&self, entity: &Entity, key: u64) -> (r: bool)
        requires
            self.wf(),
            valid_entity(self.allocator(), *entity),
            registered(self.store(), key),
        ensures
            r == has_spec(self.store(), entity.index as int, slot_of(self.store(), key)),
    {
        self.component_manager.has_component(entity, key)
    }

    /// The component a valid entity logically owns for a type, if any.
    pub fn get_component(&self, entity: &Entity, key: u64) -> (r: Option<&C>)
        requires
            self.wf(),
            valid_entity(self.allocator(), *entity),
            registered(self.store(), key),
        ensures
            match r {
                Some(c) => component_of(self.store(), entity.index as int, slot_of(
                    self.store(),
                    key,
                )) == Some(*c),
                None => component_of(self.store(), entity.index as int, slot_of(
                    self.store(),
                    key,
                )) is None,
            },
    {
        self.component_manager.get_component(entity, key)
    }

    /// Exclusive access to the component a valid entity logically owns for
    /// a type; writing through the reference is the same upsert an assign
    /// performs.
    pub fn get_component_mut(&mut self, entity: &Entity, key: u64) -> (r: Option<&mut C>)
        requires
            old(self).wf(),
            valid_entity(old(self).allocator(), *entity),
            registered(old(self).store(), key),
        ensures
            final(self).wf(),
            final(self).allocator() == old(self).allocator(),
            r.is_none() ==> component_of(
                old(self).store(),
                entity.index as int,
                slot_of(old(self).store(), key),
            ) is None && final(self).store() == old(self).store(),
            r.is_some() ==> component_of(
                old(self).store(),
                entity.index as int,
                slot_of(old(self).store(), key),
            ) == Some(*r.unwrap()) && final(self).store() == spec_assign(
                old(self).store(),
                entity.index as int,
                slot_of(old(self).store(), key),
                *final(r.unwrap()),
            ),
    {
        self.component_manager.get_component_mut(entity, key)
    }

    /// The registration record of a registered key.
    pub fn get_component_data(&self, key: u64) -> (r: &ComponentData<C>)
        requires
            self.wf(),
            registered(self.store(), key),
        ensures
            r.index as int == slot_of(self.store(), key),
            r.key == key,
            r.list.inv(),
            r.list.contents() == self.store().cols[slot_of(self.store(), key)],
    {
        self.component_manager.get_component_data(key)
    }

    /// The presence bit row of a valid entity.
    pub fn get_entity_component_mask(&self, entity: &Entity) -> (r: &Vec<bool>)
        requires
            self.wf(),
            valid_entity(self.allocator(), *entity),
        ensures
            r@ == self.store().masks[entity.index as int],
    {
        self.component_manager.get_entity_component_mask(entity)
    }

    /// How many component types have been registered.
    pub fn get_components_length(&self) -> (r: usize)
        requires
            self.wf(),
        ensures
            r == self.store().keys.len(),
    {
        self.component_manager.get_components_length()
    }

    /// Evaluates a query against this world's live entities.
    pub fn query(&self, query: &Query) -> (r: Vec<QueryRow<C>>) where C: Copy
        requires
            self.wf(),
            query_keys_registered(self.store(), *query),
        ensures
            forall|k1: int, k2: int|
                0 <= k1 < k2 < r@.len() ==> (#[trigger] r@[k1]).entity.index
                    < (#[trigger] r@[k2]).entity.index,
            forall|k: int|
                0 <= k < r@.len() ==> row_ok(self.allocator(), self.store(), *query, #[trigger] r@[k]),
            forall|i: int|
                #[trigger] live_index(self.allocator(), i) && clause_match(self.store(), *query, i)
                    ==> exists|k: int| 0 <= k < r@.len() && (#[trigger] r@[k]).entity.index == i,
    {
        evaluate(&self.entity_manager, &self.component_manager, query)
    }

    /// Replays a command buffer against this world, after a query pass:
    /// builds, then modifications, then destructions.  A buffer that fails
    /// validation is rejected with the matching error and changes nothing;
    /// either way the world stays well-formed, so the allocator and store
    /// are mutually consistent after every apply.
    pub fn apply_control(&mut self, control: Control<C>) -> (r: Result<Vec<Entity>, EcsError>)
        requires
            old(self).wf(),
        ensures
            final(self).wf(),
            r is Ok <==> apply_ok(control, old(self).allocator(), old(self).store()),
            (r matches Ok(es) ==> {
                let built = replay_builds(old(self).allocator(), old(self).store(), control.builders@);
                let modified = replay_modifiers(built.1, control.modifiers@);
                let fin = replay_destroys(built.0, modified, control.destroyed@);
                &&& final(self).allocator() == fin.0
                &&& final(self).store() == fin.1
                &&& es@ == built.2
            }),
            r is Err ==> *final(self) == *old(self),
            r == Err::<Vec<Entity>, EcsError>(EcsError::CapacityExhausted) <==> !capacity_ok(
                control,
                old(self).allocator(),
            ),
            r == Err::<Vec<Entity>, EcsError>(EcsError::UnregisteredComponent) <==> capacity_ok(
                control,
                old(self).allocator(),
            ) && !keys_ok(control, old(self).store()),
            r == Err::<Vec<Entity>, EcsError>(EcsError::InvalidEntity) <==> capacity_ok(
                control,
                old(self).allocator(),
            ) && keys_ok(control, old(self).store()) && !targets_ok(control, old(self).allocator()),
    {
        control.apply(&mut self.entity_manager, &mut self.component_manager)
    }
}

} // verus!
