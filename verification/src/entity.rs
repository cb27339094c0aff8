//! Entity identity: issuing fresh (index, version) pairs, recycling freed
//! indices through a FIFO queue with a minimum-pending threshold, answering
//! liveness checks, and walking the live entities in index order.

use std::collections::VecDeque;
use vstd::prelude::*;

verus! {

/// How many indices must be pending in the free queue before any of them is
/// handed out again.  Reusing an index only after this many other indices
/// have been freed keeps a small version counter from wrapping around while
/// a stale handle to the index is still held.
pub const MINIMUM_FREE_ENTITY_INDICES: usize = 1000;

/// A versioned entity identifier.  It names a logical record and carries no
/// data itself; the version detects stale handles after the index is reused.
#[derive(PartialEq, Eq, Structural, Clone, Copy, Debug)]
pub struct Entity {
    pub index: usize,
    pub version: usize,
}

impl Entity {
    pub fn new(index: usize, version: usize) -> (r: Entity)
        ensures
            r.index == index,
            r.version == version,
    {
        Entity { index, version }
    }

    pub fn index(&self) -> (r: usize)
        ensures
            r == self.index,
    {
        self.index
    }

    pub fn version(&self) -> (r: usize)
        ensures
            r == self.version,
    {
        self.version
    }
}

/// The mathematical state of an allocator: the next never-issued index, the
/// current version of every slot, and the queue of freed indices waiting for
/// reuse (oldest first).
pub ghost struct AllocModel {
    pub next: usize,
    pub versions: Seq<usize>,
    pub free: Seq<usize>,
}

/// Well-formedness of an allocator state: every issued index has a version
/// table slot, and the free queue holds distinct issued indices.
pub open spec fn alloc_wf(m: AllocModel) -> bool {
    &&& m.next <= m.versions.len()
    &&& forall|i: int| 0 <= i < m.free.len() ==> #[trigger] m.free[i] < m.next
    &&& forall|i: int, j: int|
        0 <= i < j < m.free.len() ==> #[trigger] m.free[i] != #[trigger] m.free[j]
}

/// A handle is valid exactly when its index has been issued and its version
/// is the slot's current version.
pub open spec fn valid_entity(m: AllocModel, e: Entity) -> bool {
    e.index < m.next && m.versions[e.index as int] == e.version
}

/// An index is live when it has been issued and is not waiting in the free
/// queue.  Live indices are the ones the entity walk yields.
pub open spec fn live_index(m: AllocModel, i: int) -> bool {
    0 <= i < m.next && !m.free.contains(i as usize)
}

/// What one allocation does to the state, and the entity it issues: the
/// oldest free index is reused once more than the threshold of indices are
/// pending, otherwise the next sequential index is issued and the version
/// table grows to cover it.
pub open spec fn spec_create(m: AllocModel) -> (AllocModel, Entity) {
    if m.free.len() > MINIMUM_FREE_ENTITY_INDICES {
        let i = m.free[0];
        let m2 = AllocModel { next: m.next, versions: m.versions, free: m.free.drop_first() };
        (m2, Entity { index: i, version: m.versions[i as int] })
    } else {
        let i = m.next;
        let versions2 = if (i as int) < m.versions.len() {
            m.versions
        } else {
            m.versions.push(0)
        };
        let m2 = AllocModel {
            next: (m.next + 1) as usize,
            versions: versions2,
            free: m.free,
        };
        (m2, Entity { index: i, version: versions2[i as int] })
    }
}

/// What destroying a valid entity does to the state: its slot's version is
/// incremented by exactly one and its index joins the back of the free queue.
pub open spec fn spec_destroy(m: AllocModel, e: Entity) -> AllocModel {
    AllocModel {
        next: m.next,
        versions: m.versions.update(e.index as int, (e.version + 1) as usize),
        free: m.free.push(e.index),
    }
}

/// Owns entity identity: the version table and the free-index queue.
pub struct EntityManager {
    pub(crate) next_entity_index: usize,
    pub(crate) free_entity_index_list: VecDeque<usize>,
    pub(crate) entity_versions: Vec<usize>,
}

impl View for EntityManager {
    type V = AllocModel;

    closed spec fn view(&self) -> AllocModel {
        AllocModel {
            next: self.next_entity_index,
            versions: self.entity_versions@,
            free: self.free_entity_index_list@,
        }
    }
}

impl EntityManager {
    pub open spec fn wf(&self) -> bool {
        alloc_wf(self@)
    }

    pub fn new(initial_capacity: usize) -> (r: EntityManager)
        ensures
            r.wf(),
            r@.next == 0,
            r@.free.len() == 0,
            r@.versions.len() == initial_capacity,
            forall|i: int| 0 <= i < initial_capacity ==> #[trigger] r@.versions[i] == 0,
    {
        EntityManager {
            next_entity_index: 0,
            free_entity_index_list: VecDeque::with_capacity(MINIMUM_FREE_ENTITY_INDICES),
            entity_versions: vec![0usize; initial_capacity],
        }
    }

    /// Issues an entity: pops the oldest free index once the threshold is
    /// exceeded, else takes the next sequential index, growing the version
    /// table as needed.  The issued handle is valid in the new state.
    pub fn create_entity(&mut self) -> (r: Entity)
        requires
            old(self).wf(),
            old(self)@.next < usize::MAX,
        ensures
            final(self).wf(),
            final(self)@ == spec_create(old(self)@).0,
            r == spec_create(old(self)@).1,
            valid_entity(final(self)@, r),
    {
        let index: usize;
        if self.free_entity_index_list.len() > MINIMUM_FREE_ENTITY_INDICES {
            index = self.free_entity_index_list.pop_front().unwrap();
        } else {
            index = self.next_entity_index;
            self.next_entity_index = self.next_entity_index + 1;
        }
        if index >= self.entity_versions.len() {
            self.entity_versions.push(0);
        }
        let version = self.entity_versions[index];
        proof {
            assert(self@.free =~= spec_create(old(self)@).0.free);
            assert(self@.versions =~= spec_create(old(self)@).0.versions);
        }
        Entity { index, version }
    }

    /// Destroys a valid entity: bumps its slot's version so the handle (and
    /// every other outstanding handle to the index) goes stale, and queues
    /// the index for delayed reuse.
    pub fn destroy_entity(&mut self, entity: Entity)
        requires
            old(self).wf(),
            valid_entity(old(self)@, entity),
            !old(self)@.free.contains(entity.index),
            entity.version < usize::MAX,
        ensures
            final(self).wf(),
            final(self)@ == spec_destroy(old(self)@, entity),
    {
        let i = entity.index;
        let v = self.entity_versions[i];
        self.entity_versions.set(i, v + 1);
        self.free_entity_index_list.push_back(i);
        proof {
            assert(self@.versions =~= spec_destroy(old(self)@, entity).versions);
            assert(self@.free =~= spec_destroy(old(self)@, entity).free);
        }
    }

    pub fn is_valid(&self, entity: &Entity) -> (r: bool)
        requires
            self.wf(),
        ensures
            r == valid_entity(self@, *entity),
    {
        entity.index < self.next_entity_index
            && self.entity_versions[entity.index] == entity.version
    }

    /// The count of indices ever issued (the next sequential index).
    pub(crate) fn issued(&self) -> (r: usize)
        ensures
            r == self@.next,
    {
        self.next_entity_index
    }

    /// Whether an index is currently waiting in the free queue.
    pub(crate) fn free_contains(&self, index: usize) -> (r: bool)
        ensures
            r == self@.free.contains(index),
    {
        let n = self.free_entity_index_list.len();
        let mut i: usize = 0;
        while i < n
            invariant
                n == self@.free.len(),
                i <= n,
                forall|j: int| 0 <= j < i ==> #[trigger] self@.free[j] != index,
            decreases n - i,
        {
            if self.free_entity_index_list[i] == index {
                return true;
            }
            i = i + 1;
        }
        false
    }

    /// Starts a walk over the live entities, in increasing index order.
    pub fn entities(&self) -> (r: EntityIterator)
        ensures
            r.position == 0,
    {
        EntityIterator { position: 0 }
    }
}

/// A cursor over the live entities of an allocator.  One pass per call to
/// `EntityManager::entities`; the allocator must not be mutated while the
/// walk is in progress.
pub struct EntityIterator {
    pub position: usize,
}

impl EntityIterator {
    /// Yields the next live entity at or beyond the cursor, skipping freed
    /// indices, or nothing once every issued index has been visited.
    pub fn next(&mut self, manager: &EntityManager) -> (r: Option<Entity>)
        requires
            manager.wf(),
        ensures
            match r {
                Some(e) => {
                    &&& old(self).position <= e.index < manager@.next
                    &&& live_index(manager@, e.index as int)
                    &&& valid_entity(manager@, e)
                    &&& e.version == manager@.versions[e.index as int]
                    &&& final(self).position == e.index + 1
                    &&& forall|j: int|
                        old(self).position <= j < e.index ==> !live_index(manager@, j)
                },
                None => {
                    &&& forall|j: int|
                        old(self).position <= j < manager@.next ==> !live_index(manager@, j)
                    &&& final(self).position == if old(self).position >= manager@.next {
                        old(self).position
                    } else {
                        manager@.next
                    }
                },
            },
    {
        while self.position < manager.next_entity_index
            invariant
                manager.wf(),
                old(self).position <= self.position,
                self.position <= manager@.next || self.position == old(self).position,
                forall|j: int|
                    old(self).position <= j < self.position ==> !live_index(manager@, j),
            decreases manager@.next - self.position,
        {
            let index = self.position;
            if !manager.free_contains(index) {
                let version = manager.entity_versions[index];
                self.position = index + 1;
                return Some(Entity { index, version });
            }
            self.position = index + 1;
        }
        None
    }
}

/// Generational safety: destroying a valid entity leaves its handle invalid,
/// and any handle to the same index that is valid afterwards (in particular
/// one issued when the index is reused) carries a different version, never
/// the destroyed one.
pub proof fn lemma_generational_safety(m: AllocModel, e: Entity, e2: Entity)
    requires
        alloc_wf(m),
        valid_entity(m, e),
        e.version < usize::MAX,
    ensures
        !valid_entity(spec_destroy(m, e), e),
        valid_entity(spec_destroy(m, e), e2) && e2.index == e.index ==> e2.version != e.version,
{
}

/// Recycling delay: an allocation reuses an index only when more than the
/// threshold of indices are pending in the free queue, and then it takes the
/// oldest one.  Since destruction appends to the back of the queue, by the
/// time an index is handed out again at least that many other indices have
/// been freed after it.
pub proof fn lemma_recycling_delay(m: AllocModel)
    requires
        alloc_wf(m),
    ensures
        spec_create(m).1.index < m.next ==> m.free.len() > MINIMUM_FREE_ENTITY_INDICES
            && spec_create(m).1.index == m.free[0],
        m.free.len() <= MINIMUM_FREE_ENTITY_INDICES ==> spec_create(m).1.index == m.next,
{
    if m.free.len() > MINIMUM_FREE_ENTITY_INDICES {
        assert(m.free[0] < m.next);
    }
}

} // verus!
