//! The command buffer: records create, modify, and destroy intents raised
//! while a query pass is running, then replays them against the allocator
//! and the store once the pass is over, in the fixed order
//! build, then modify, then destroy.  New entities are therefore visible
//! to the modify phase, and nothing disappears before the modify phase
//! ends.  The whole buffer is validated before anything is replayed, so a
//! rejected buffer leaves both stores untouched.

use crate::component::{
    registered, slot_of, spec_assign, spec_clear_row, spec_notify_created, spec_remove,
    ComponentManager, StoreModel,
};
use crate::entity::{spec_create, spec_destroy, valid_entity, AllocModel, Entity, EntityManager};
use crate::EcsError;
use vstd::prelude::*;

verus! {

/// A deferred build directive: the components to assign to the entity once
/// it has been created, in order.
pub struct EntityBuilder<C> {
    pub components: Vec<(u64, C)>,
}

/// A deferred mutation of one entity: assign a component value for a type
/// key, or remove the component of a type key.
pub enum EntityModifier<C> {
    Assign(u64, C),
    Remove(u64),
}

/// The type key a modifier operates on.
pub open spec fn modifier_key<C>(op: EntityModifier<C>) -> u64 {
    match op {
        EntityModifier::Assign(k, _) => k,
        EntityModifier::Remove(k) => k,
    }
}

/// The three intent lists of one pass, each replayed first-in first-out.
pub struct Control<C> {
    pub builders: Vec<EntityBuilder<C>>,
    pub destroyed: Vec<Entity>,
    pub modifiers: Vec<(Entity, EntityModifier<C>)>,
}

/// What one recorded component assignment does during build replay (the
/// unregistered branch is never taken once the buffer has been validated).
pub open spec fn replay_component<C>(s: StoreModel<C>, i: int, key: u64, value: C) -> StoreModel<
    C,
> {
    if registered(s, key) {
        spec_assign(s, i, slot_of(s, key), value)
    } else {
        s
    }
}

/// Folding one build directive's component list over the store.
pub open spec fn replay_build_components<C>(
    s: StoreModel<C>,
    i: int,
    comps: Seq<(u64, C)>,
) -> StoreModel<C>
    decreases comps.len(),
{
    if comps.len() == 0 {
        s
    } else {
        replay_build_components(
            replay_component(s, i, comps[0].0, comps[0].1),
            i,
            comps.drop_first(),
        )
    }
}

/// Replaying the build directives in order: each creates an entity,
/// announces it to the store, and assigns the recorded components; the
/// entities created are collected in order.
pub open spec fn replay_builds<C>(
    m: AllocModel,
    s: StoreModel<C>,
    bs: Seq<EntityBuilder<C>>,
) -> (AllocModel, StoreModel<C>, Seq<Entity>)
    decreases bs.len(),
{
    if bs.len() == 0 {
        (m, s, Seq::empty())
    } else {
        let created = spec_create(m);
        let s1 = spec_notify_created(s, created.1.index as int);
        let s2 = replay_build_components(s1, created.1.index as int, bs[0].components@);
        let rest = replay_builds(created.0, s2, bs.drop_first());
        (rest.0, rest.1, seq![created.1] + rest.2)
    }
}

/// What one recorded modifier does to the store.
pub open spec fn replay_modifier<C>(s: StoreModel<C>, e: Entity, op: EntityModifier<C>) -> StoreModel<
    C,
> {
    match op {
        EntityModifier::Assign(key, value) => replay_component(s, e.index as int, key, value),
        EntityModifier::Remove(key) => if registered(s, key) {
            spec_remove(s, e.index as int, slot_of(s, key))
        } else {
            s
        },
    }
}

/// Replaying the modifiers in order.
pub open spec fn replay_modifiers<C>(
    s: StoreModel<C>,
    ms: Seq<(Entity, EntityModifier<C>)>,
) -> StoreModel<C>
    decreases ms.len(),
{
    if ms.len() == 0 {
        s
    } else {
        replay_modifiers(replay_modifier(s, ms[0].0, ms[0].1), ms.drop_first())
    }
}

/// Replaying the destroy requests in order: each bumps the slot version in
/// the allocator and clears the entity's presence bits in the store.
pub open spec fn replay_destroys<C>(
    m: AllocModel,
    s: StoreModel<C>,
    ds: Seq<Entity>,
) -> (AllocModel, StoreModel<C>)
    decreases ds.len(),
{
    if ds.len() == 0 {
        (m, s)
    } else {
        replay_destroys(
            spec_destroy(m, ds[0]),
            spec_clear_row(s, ds[0].index as int),
            ds.drop_first(),
        )
    }
}

/// The machine limits a replay must stay inside: room for every fresh
/// index, and a version bump for every destroyed entity.
pub open spec fn capacity_ok<C>(c: Control<C>, m: AllocModel) -> bool {
    &&& m.next + c.builders@.len() <= usize::MAX
    &&& forall|i: int|
        0 <= i < c.destroyed@.len() ==> (#[trigger] c.destroyed@[i]).version < usize::MAX
}

/// Every type key the buffer names must be registered.
pub open spec fn keys_ok<C>(c: Control<C>, s: StoreModel<C>) -> bool {
    &&& forall|b: int, j: int|
        0 <= b < c.builders@.len() && 0 <= j < c.builders@[b].components@.len() ==> registered(
            s,
            (#[trigger] c.builders@[b].components@[j]).0,
        )
    &&& forall|i: int|
        0 <= i < c.modifiers@.len() ==> registered(
            s,
            modifier_key((#[trigger] c.modifiers@[i]).1),
        )
}

/// Every entity the buffer targets must be valid when the replay starts,
/// and no entity may be destroyed twice: a request against a stale,
/// already-freed, or repeated handle signals a logic error in the issuing
/// routine and is rejected loudly.
pub open spec fn targets_ok<C>(c: Control<C>, m: AllocModel) -> bool {
    &&& forall|i: int| 0 <= i < c.modifiers@.len() ==> valid_entity(m, (#[trigger] c.modifiers@[i]).0)
    &&& forall|i: int|
        0 <= i < c.destroyed@.len() ==> valid_entity(m, #[trigger] c.destroyed@[i])
            && !m.free.contains(c.destroyed@[i].index)
    &&& forall|i: int, j: int|
        0 <= i < j < c.destroyed@.len() ==> (#[trigger] c.destroyed@[i]).index
            != (#[trigger] c.destroyed@[j]).index
}

/// The condition under which a buffer replays successfully.
pub open spec fn apply_ok<C>(c: Control<C>, m: AllocModel, s: StoreModel<C>) -> bool {
    capacity_ok(c, m) && keys_ok(c, s) && targets_ok(c, m)
}

impl<C> Control<C> {
    pub fn new() -> (r: Control<C>)
        ensures
            r.builders@.len() == 0,
            r.destroyed@.len() == 0,
            r.modifiers@.len() == 0,
    {
        Control { builders: Vec::new(), destroyed: Vec::new(), modifiers: Vec::new() }
    }

    /// Records a build directive; nothing is created until `apply`.
    pub fn build(&mut self, builder: EntityBuilder<C>)
        ensures
            final(self).builders@ == old(self).builders@.push(builder),
            final(self).destroyed@ == old(self).destroyed@,
            final(self).modifiers@ == old(self).modifiers@,
    {
        self.builders.push(builder);
    }

    /// Records a destroy request; nothing is destroyed until `apply`.
    pub fn destroy(&mut self, entity: Entity)
        ensures
            final(self).builders@ == old(self).builders@,
            final(self).destroyed@ == old(self).destroyed@.push(entity),
            final(self).modifiers@ == old(self).modifiers@,
    {
        self.destroyed.push(entity);
    }

    /// Records a mutation of an existing entity; nothing is mutated until
    /// `apply`.
    pub fn modify(&mut self, entity: Entity, modifier: EntityModifier<C>)
        ensures
            final(self).builders@ == old(self).builders@,
            final(self).destroyed@ == old(self).destroyed@,
            final(self).modifiers@ == old(self).modifiers@.push((entity, modifier)),
    {
        self.modifiers.push((entity, modifier));
    }

    /// Replays the buffer: builds, then modifications, then destructions,
    /// each list first-in first-out.  The whole buffer is validated against
    /// the state before replay; a buffer that names an unregistered key,
    /// targets an entity that is not currently valid, repeats a destroy, or
    /// would run over a machine limit is rejected with the matching error
    /// and leaves the allocator and the store exactly as they were.  On
    /// success the entities created for the build directives are returned
    /// in order.
    pub fn apply(
        self,
        entity_manager: &mut EntityManager,
        component_manager: &mut ComponentManager<C>,
    ) -> (r: Result<Vec<Entity>, EcsError>)
        requires
            old(entity_manager).wf(),
            old(component_manager).wf(),
            old(component_manager)@.masks.len() == old(entity_manager)@.next,
        ensures
            final(entity_manager).wf(),
            final(component_manager).wf(),
            final(component_manager)@.masks.len() == final(entity_manager)@.next,
            r is Ok <==> apply_ok(self, old(entity_manager)@, old(component_manager)@),
            (r matches Ok(es) ==> {
                let built = replay_builds(
                    old(entity_manager)@,
                    old(component_manager)@,
                    self.builders@,
                );
                let modified = replay_modifiers(built.1, self.modifiers@);
                let fin = replay_destroys(built.0, modified, self.destroyed@);
                &&& final(entity_manager)@ == fin.0
                &&& final(component_manager)@ == fin.1
                &&& es@ == built.2
            }),
            r is Err ==> *final(entity_manager) == *old(entity_manager)
                && *final(component_manager) == *old(component_manager),
            r == Err::<Vec<Entity>, EcsError>(EcsError::CapacityExhausted) <==> !capacity_ok(
                self,
                old(entity_manager)@,
            ),
            r == Err::<Vec<Entity>, EcsError>(EcsError::UnregisteredComponent) <==> capacity_ok(
                self,
                old(entity_manager)@,
            ) && !keys_ok(self, old(component_manager)@),
            r == Err::<Vec<Entity>, EcsError>(EcsError::InvalidEntity) <==> capacity_ok(
                self,
                old(entity_manager)@,
            ) && keys_ok(self, old(component_manager)@) && !targets_ok(
                self,
                old(entity_manager)@,
            ),
    {
        // Validation: machine limits.
        let n_build = self.builders.len();
        if usize::MAX - n_build < entity_manager.issued() {
            return Err(EcsError::CapacityExhausted);
        }
        let nd = self.destroyed.len();
        let mut i: usize = 0;
        while i < nd
            invariant
                *entity_manager == *old(entity_manager),
                *component_manager == *old(component_manager),
                old(entity_manager).wf(),
                old(component_manager).wf(),
                old(component_manager)@.masks.len() == old(entity_manager)@.next,
                nd == self.destroyed@.len(),
                i <= nd,
                forall|k: int|
                    0 <= k < i ==> (#[trigger] self.destroyed@[k]).version < usize::MAX,
            decreases nd - i,
        {
            if self.destroyed[i].version == usize::MAX {
                return Err(EcsError::CapacityExhausted);
            }
            i = i + 1;
        }
        proof {
            assert(capacity_ok(self, old(entity_manager)@));
        }
        // Validation: every named key is registered.
        let nb = self.builders.len();
        let mut b: usize = 0;
        while b < nb
            invariant
                *entity_manager == *old(entity_manager),
                *component_manager == *old(component_manager),
                old(entity_manager).wf(),
                old(component_manager).wf(),
                old(component_manager)@.masks.len() == old(entity_manager)@.next,
                capacity_ok(self, old(entity_manager)@),
                nb == self.builders@.len(),
                b <= nb,
                forall|b2: int, j2: int|
                    0 <= b2 < b && 0 <= j2 < self.builders@[b2].components@.len() ==> registered(
                        old(component_manager)@,
                        (#[trigger] self.builders@[b2].components@[j2]).0,
                    ),
            decreases nb - b,
        {
            let nc = self.builders[b].components.len();
            let mut j: usize = 0;
            while j < nc
                invariant
                    *entity_manager == *old(entity_manager),
                    *component_manager == *old(component_manager),
                    old(entity_manager).wf(),
                    old(component_manager).wf(),
                    old(component_manager)@.masks.len() == old(entity_manager)@.next,
                    capacity_ok(self, old(entity_manager)@),
                    nb == self.builders@.len(),
                    forall|b2: int, j2: int|
                        0 <= b2 < b && 0 <= j2 < self.builders@[b2].components@.len()
                            ==> registered(
                            old(component_manager)@,
                            (#[trigger] self.builders@[b2].components@[j2]).0,
                        ),
                    b < nb,
                    nc == self.builders@[b as int].components@.len(),
                    j <= nc,
                    forall|j2: int|
                        0 <= j2 < j ==> registered(
                            old(component_manager)@,
                            (#[trigger] self.builders@[b as int].components@[j2]).0,
                        ),
                decreases nc - j,
            {
                if !component_manager.is_registered(self.builders[b].components[j].0) {
                    return Err(EcsError::UnregisteredComponent);
                }
                j = j + 1;
            }
            b = b + 1;
        }
        let nm = self.modifiers.len();
        let mut i: usize = 0;
        while i < nm
            invariant
                *entity_manager == *old(entity_manager),
                *component_manager == *old(component_manager),
                old(entity_manager).wf(),
                old(component_manager).wf(),
                old(component_manager)@.masks.len() == old(entity_manager)@.next,
                capacity_ok(self, old(entity_manager)@),
                forall|b2: int, j2: int|
                    0 <= b2 < self.builders@.len() && 0 <= j2
                        < self.builders@[b2].components@.len() ==> registered(
                        old(component_manager)@,
                        (#[trigger] self.builders@[b2].components@[j2]).0,
                    ),
                nm == self.modifiers@.len(),
                i <= nm,
                forall|k: int|
                    0 <= k < i ==> registered(
                        old(component_manager)@,
                        modifier_key((#[trigger] self.modifiers@[k]).1),
                    ),
            decreases nm - i,
        {
            let key = match &self.modifiers[i].1 {
                EntityModifier::Assign(k, _) => *k,
                EntityModifier::Remove(k) => *k,
            };
            if !component_manager.is_registered(key) {
                return Err(EcsError::UnregisteredComponent);
            }
            i = i + 1;
        }
        proof {
            assert(keys_ok(self, old(component_manager)@));
        }
        // Validation: every targeted entity is valid now, and no index is
        // destroyed twice.
        let mut i: usize = 0;
        while i < nm
            invariant
                *entity_manager == *old(entity_manager),
                *component_manager == *old(component_manager),
                old(entity_manager).wf(),
                old(component_manager).wf(),
                old(component_manager)@.masks.len() == old(entity_manager)@.next,
                capacity_ok(self, old(entity_manager)@),
                keys_ok(self, old(component_manager)@),
                nm == self.modifiers@.len(),
                i <= nm,
                forall|k: int|
                    0 <= k < i ==> valid_entity(
                        old(entity_manager)@,
                        (#[trigger] self.modifiers@[k]).0,
                    ),
            decreases nm - i,
        {
            if !entity_manager.is_valid(&self.modifiers[i].0) {
                return Err(EcsError::InvalidEntity);
            }
            i = i + 1;
        }
        let mut i: usize = 0;
        while i < nd
            invariant
                *entity_manager == *old(entity_manager),
                *component_manager == *old(component_manager),
                old(entity_manager).wf(),
                old(component_manager).wf(),
                old(component_manager)@.masks.len() == old(entity_manager)@.next,
                capacity_ok(self, old(entity_manager)@),
                keys_ok(self, old(component_manager)@),
                forall|k: int|
                    0 <= k < nm ==> valid_entity(
                        old(entity_manager)@,
                        (#[trigger] self.modifiers@[k]).0,
                    ),
                nm == self.modifiers@.len(),
                nd == self.destroyed@.len(),
                i <= nd,
                forall|k: int|
                    0 <= k < i ==> valid_entity(old(entity_manager)@, #[trigger] self.destroyed@[k])
                        && !old(entity_manager)@.free.contains(self.destroyed@[k].index),
                forall|k: int, l: int|
                    0 <= k < l < i ==> (#[trigger] self.destroyed@[k]).index
                        != (#[trigger] self.destroyed@[l]).index,
            decreases nd - i,
        {
            if !entity_manager.is_valid(&self.destroyed[i]) {
                return Err(EcsError::InvalidEntity);
            }
            if entity_manager.free_contains(self.destroyed[i].index) {
                return Err(EcsError::InvalidEntity);
            }
            let mut k: usize = 0;
            while k < i
                invariant
                    *entity_manager == *old(entity_manager),
                    *component_manager == *old(component_manager),
                    old(entity_manager).wf(),
                    old(component_manager).wf(),
                    old(component_manager)@.masks.len() == old(entity_manager)@.next,
                    capacity_ok(self, old(entity_manager)@),
                    keys_ok(self, old(component_manager)@),
                    forall|k2: int|
                        0 <= k2 < nm ==> valid_entity(
                            old(entity_manager)@,
                            (#[trigger] self.modifiers@[k2]).0,
                        ),
                    nm == self.modifiers@.len(),
                    nd == self.destroyed@.len(),
                    i < nd,
                    k <= i,
                    forall|k2: int|
                        0 <= k2 < k ==> (#[trigger] self.destroyed@[k2]).index
                            != self.destroyed@[i as int].index,
                decreases i - k,
            {
                if self.destroyed[k].index == self.destroyed[i].index {
                    return Err(EcsError::InvalidEntity);
                }
                k = k + 1;
            }
            i = i + 1;
        }
        proof {
            assert(targets_ok(self, old(entity_manager)@));
        }
        // Replay.
        let Control { builders, destroyed, modifiers } = self;
        let created = run_builds(entity_manager, component_manager, builders);
        run_modifiers(component_manager, modifiers);
        proof {
            assert forall|k: int|
                0 <= k < destroyed@.len() implies valid_entity(
                entity_manager@,
                #[trigger] destroyed@[k],
            ) && !entity_manager@.free.contains(destroyed@[k].index) by {
                assert(valid_entity(old(entity_manager)@, destroyed@[k]));
                assert(destroyed@[k].index < old(entity_manager)@.versions.len());
            }
        }
        run_destroys(entity_manager, component_manager, destroyed);
        Ok(created)
    }
}

/// Replays the build directives: creates each entity, announces it to the
/// store, and assigns its recorded components, first-in first-out.
fn run_builds<C>(
    entity_manager: &mut EntityManager,
    component_manager: &mut ComponentManager<C>,
    builders: Vec<EntityBuilder<C>>,
) -> (r: Vec<Entity>)
    requires
        old(entity_manager).wf(),
        old(component_manager).wf(),
        old(component_manager)@.masks.len() == old(entity_manager)@.next,
        old(entity_manager)@.next + builders@.len() <= usize::MAX,
        forall|b: int, j: int|
            0 <= b < builders@.len() && 0 <= j < builders@[b].components@.len() ==> registered(
                old(component_manager)@,
                (#[trigger] builders@[b].components@[j]).0,
            ),
    ensures
        final(entity_manager).wf(),
        final(component_manager).wf(),
        final(component_manager)@.masks.len() == final(entity_manager)@.next,
        final(entity_manager)@ == replay_builds(
            old(entity_manager)@,
            old(component_manager)@,
            builders@,
        ).0,
        final(component_manager)@ == replay_builds(
            old(entity_manager)@,
            old(component_manager)@,
            builders@,
        ).1,
        r@ == replay_builds(old(entity_manager)@, old(component_manager)@, builders@).2,
        final(component_manager)@.keys == old(component_manager)@.keys,
        final(entity_manager)@.next >= old(entity_manager)@.next,
        final(entity_manager)@.versions.len() >= old(entity_manager)@.versions.len(),
        forall|i: int|
            0 <= i < old(entity_manager)@.versions.len() ==> final(entity_manager)@.versions[i]
                == old(entity_manager)@.versions[i],
        forall|x: usize|
            final(entity_manager)@.free.contains(x) ==> old(entity_manager)@.free.contains(x),
{
    let ghost m0 = old(entity_manager)@;
    let ghost s0 = old(component_manager)@;
    let ghost bs0 = builders@;
    let mut builders = builders;
    let mut created: Vec<Entity> = Vec::new();
    while builders.len() > 0
        invariant
            entity_manager.wf(),
            component_manager.wf(),
            component_manager@.masks.len() == entity_manager@.next,
            component_manager@.keys == s0.keys,
            entity_manager@.next + builders@.len() <= usize::MAX,
            forall|b: int, j: int|
                0 <= b < builders@.len() && 0 <= j < builders@[b].components@.len()
                    ==> registered(s0, (#[trigger] builders@[b].components@[j]).0),
            replay_builds(m0, s0, bs0).0 == replay_builds(
                entity_manager@,
                component_manager@,
                builders@,
            ).0,
            replay_builds(m0, s0, bs0).1 == replay_builds(
                entity_manager@,
                component_manager@,
                builders@,
            ).1,
            replay_builds(m0, s0, bs0).2 == created@ + replay_builds(
                entity_manager@,
                component_manager@,
                builders@,
            ).2,
            entity_manager@.next >= m0.next,
            entity_manager@.versions.len() >= m0.versions.len(),
            forall|i: int|
                0 <= i < m0.versions.len() ==> entity_manager@.versions[i] == m0.versions[i],
            forall|x: usize| entity_manager@.free.contains(x) ==> m0.free.contains(x),
        decreases builders@.len(),
    {
        let ghost pre_bs = builders@;
        let ghost pre_m = entity_manager@;
        let ghost pre_s = component_manager@;
        let builder = builders.remove(0);
        proof {
            assert(builders@ =~= pre_bs.drop_first());
        }
        let entity = entity_manager.create_entity();
        proof {
            assert(entity.index <= component_manager@.masks.len());
        }
        component_manager.entity_created(&entity);
        let ghost m_mid = entity_manager@;
        let ghost s_mid = component_manager@;
        let ghost comps0 = builder.components@;
        let mut comps = builder.components;
        while comps.len() > 0
            invariant
                entity_manager.wf(),
                entity_manager@ == m_mid,
                component_manager.wf(),
                component_manager@.keys == s0.keys,
                component_manager@.masks.len() == entity_manager@.next,
                entity.index < component_manager@.masks.len(),
                forall|j: int|
                    0 <= j < comps@.len() ==> registered(s0, (#[trigger] comps@[j]).0),
                replay_build_components(s_mid, entity.index as int, comps0)
                    == replay_build_components(
                    component_manager@,
                    entity.index as int,
                    comps@,
                ),
            decreases comps@.len(),
        {
            let ghost pre_comps = comps@;
            let ghost pre_cs = component_manager@;
            let (key, value) = comps.remove(0);
            proof {
                assert(comps@ =~= pre_comps.drop_first());
                assert(registered(pre_cs, key));
            }
            component_manager.assign_component(&entity, key, value);
        }
        created.push(entity);
        proof {
            assert(component_manager@ == replay_build_components(
                s_mid,
                entity.index as int,
                comps0,
            ));
            assert(replay_builds(pre_m, pre_s, pre_bs).0 == replay_builds(
                entity_manager@,
                component_manager@,
                builders@,
            ).0);
            assert(replay_builds(pre_m, pre_s, pre_bs).2 == seq![entity] + replay_builds(
                entity_manager@,
                component_manager@,
                builders@,
            ).2);
            assert(created@ + replay_builds(entity_manager@, component_manager@, builders@).2
                =~= created@.drop_last() + replay_builds(pre_m, pre_s, pre_bs).2);
            // the free queue only shrinks during builds
            assert forall|x: usize| entity_manager@.free.contains(x) implies m0.free.contains(
                x,
            ) by {
                if pre_m.free.len() > crate::entity::MINIMUM_FREE_ENTITY_INDICES {
                    let w = choose|w: int|
                        0 <= w < entity_manager@.free.len() && entity_manager@.free[w] == x;
                    assert(pre_m.free[w + 1] == x);
                    assert(pre_m.free.contains(x));
                }
            }
        }
    }
    proof {
        assert(replay_builds(m0, s0, bs0).2 =~= created@);
    }
    created
}

/// Replays the modifiers first-in first-out.
fn run_modifiers<C>(
    component_manager: &mut ComponentManager<C>,
    modifiers: Vec<(Entity, EntityModifier<C>)>,
)
    requires
        old(component_manager).wf(),
        forall|i: int|
            0 <= i < modifiers@.len() ==> registered(
                old(component_manager)@,
                modifier_key((#[trigger] modifiers@[i]).1),
            ),
        forall|i: int|
            0 <= i < modifiers@.len() ==> (#[trigger] modifiers@[i]).0.index < old(
                component_manager,
            )@.masks.len(),
    ensures
        final(component_manager).wf(),
        final(component_manager)@ == replay_modifiers(old(component_manager)@, modifiers@),
        final(component_manager)@.keys == old(component_manager)@.keys,
        final(component_manager)@.masks.len() == old(component_manager)@.masks.len(),
{
    let ghost s0 = old(component_manager)@;
    let ghost ms0 = modifiers@;
    let mut modifiers = modifiers;
    while modifiers.len() > 0
        invariant
            component_manager.wf(),
            component_manager@.keys == s0.keys,
            component_manager@.masks.len() == s0.masks.len(),
            forall|i: int|
                0 <= i < modifiers@.len() ==> registered(
                    s0,
                    modifier_key((#[trigger] modifiers@[i]).1),
                ),
            forall|i: int|
                0 <= i < modifiers@.len() ==> (#[trigger] modifiers@[i]).0.index < s0.masks.len(),
            replay_modifiers(s0, ms0) == replay_modifiers(component_manager@, modifiers@),
        decreases modifiers@.len(),
    {
        let ghost pre_ms = modifiers@;
        let ghost pre_s = component_manager@;
        let (entity, op) = modifiers.remove(0);
        proof {
            assert(modifiers@ =~= pre_ms.drop_first());
            assert(registered(pre_s, modifier_key(op)));
        }
        match op {
            EntityModifier::Assign(key, value) => {
                component_manager.assign_component(&entity, key, value);
            },
            EntityModifier::Remove(key) => {
                component_manager.remove_component(&entity, key);
            },
        }
    }
}

/// Replays the destroy requests first-in first-out: each destroys the
/// entity in the allocator and clears its presence bits in the store.
fn run_destroys<C>(
    entity_manager: &mut EntityManager,
    component_manager: &mut ComponentManager<C>,
    destroyed: Vec<Entity>,
)
    requires
        old(entity_manager).wf(),
        old(component_manager).wf(),
        old(component_manager)@.masks.len() == old(entity_manager)@.next,
        forall|i: int|
            0 <= i < destroyed@.len() ==> valid_entity(
                old(entity_manager)@,
                #[trigger] destroyed@[i],
            ) && !old(entity_manager)@.free.contains(destroyed@[i].index)
                && destroyed@[i].version < usize::MAX,
        forall|i: int, j: int|
            0 <= i < j < destroyed@.len() ==> (#[trigger] destroyed@[i]).index
                != (#[trigger] destroyed@[j]).index,
    ensures
        final(entity_manager).wf(),
        final(component_manager).wf(),
        final(component_manager)@.masks.len() == final(entity_manager)@.next,
        final(entity_manager)@ == replay_destroys(
            old(entity_manager)@,
            old(component_manager)@,
            destroyed@,
        ).0,
        final(component_manager)@ == replay_destroys(
            old(entity_manager)@,
            old(component_manager)@,
            destroyed@,
        ).1,
{
    let ghost m0 = old(entity_manager)@;
    let ghost s0 = old(component_manager)@;
    let ghost ds0 = destroyed@;
    let mut destroyed = destroyed;
    while destroyed.len() > 0
        invariant
            entity_manager.wf(),
            component_manager.wf(),
            component_manager@.masks.len() == entity_manager@.next,
            forall|i: int|
                0 <= i < destroyed@.len() ==> valid_entity(
                    entity_manager@,
                    #[trigger] destroyed@[i],
                ) && !entity_manager@.free.contains(destroyed@[i].index)
                    && destroyed@[i].version < usize::MAX,
            forall|i: int, j: int|
                0 <= i < j < destroyed@.len() ==> (#[trigger] destroyed@[i]).index
                    != (#[trigger] destroyed@[j]).index,
            replay_destroys(m0, s0, ds0).0 == replay_destroys(
                entity_manager@,
                component_manager@,
                destroyed@,
            ).0,
            replay_destroys(m0, s0, ds0).1 == replay_destroys(
                entity_manager@,
                component_manager@,
                destroyed@,
            ).1,
        decreases destroyed@.len(),
    {
        let ghost pre_ds = destroyed@;
        let ghost pre_m = entity_manager@;
        let entity = destroyed.remove(0);
        proof {
            assert(destroyed@ =~= pre_ds.drop_first());
        }
        entity_manager.destroy_entity(entity);
        component_manager.entity_destroyed(&entity);
        proof {
            // the remaining targets stay valid: their indices differ from
            // the one just destroyed, and the free queue only gained it
            assert forall|i: int|
                0 <= i < destroyed@.len() implies valid_entity(
                entity_manager@,
                #[trigger] destroyed@[i],
            ) && !entity_manager@.free.contains(destroyed@[i].index) by {
                assert(pre_ds[i + 1] == destroyed@[i]);
                assert(destroyed@[i].index != entity.index);
                assert(valid_entity(pre_m, destroyed@[i]));
                if entity_manager@.free.contains(destroyed@[i].index) {
                    let w = choose|w: int|
                        0 <= w < entity_manager@.free.len() && entity_manager@.free[w]
                            == destroyed@[i].index;
                    assert(w < pre_m.free.len() || entity_manager@.free[w] == entity.index);
                    assert(pre_m.free.contains(destroyed@[i].index));
                }
            }
        }
    }
}

} // verus!
