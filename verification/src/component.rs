//! Columnar component storage: one column per registered component type,
//! keyed by entity index, plus one presence bitset per entity recording
//! which types are currently attached.  The presence bit and the column
//! entry for a type change together on every mutation.

use crate::entity::Entity;
use crate::EcsError;
use vstd::prelude::*;

verus! {

/// The backing structure chosen for a column at registration time: a dense
/// array-like column (good when most entities carry the component) or a
/// sparse associative column (good when few do).  Opaque to callers after
/// registration.
#[derive(PartialEq, Eq, Structural, Clone, Copy, Debug)]
pub enum Backing {
    Dense,
    Sparse,
}

/// The capability set every column backing offers: an association from
/// entity index to component value, abstracted as a map.
pub trait ComponentList<C>: Sized {
    /// The association the column currently holds.
    spec fn contents(&self) -> Map<int, C>;

    /// The backing's internal well-formedness.
    spec fn inv(&self) -> bool;

    fn contains_key(&self, index: usize) -> (r: bool)
        requires
            self.inv(),
        ensures
            r == self.contents().dom().contains(index as int),
    ;

    fn get(&self, index: usize) -> (r: Option<&C>)
        requires
            self.inv(),
        ensures
            match r {
                Some(c) => self.contents().dom().contains(index as int) && *c
                    == self.contents()[index as int],
                None => !self.contents().dom().contains(index as int),
            },
    ;

    fn get_mut(&mut self, index: usize) -> (r: Option<&mut C>)
        requires
            old(self).inv(),
        ensures
            final(self).inv(),
            r.is_none() ==> !old(self).contents().dom().contains(index as int)
                && final(self).contents() == old(self).contents(),
            r.is_some() ==> old(self).contents().dom().contains(index as int)
                && *r.unwrap() == old(self).contents()[index as int]
                && final(self).contents()
                == old(self).contents().insert(index as int, *final(r.unwrap())),
    ;

    fn insert(&mut self, index: usize, value: C)
        requires
            old(self).inv(),
        ensures
            final(self).inv(),
            final(self).contents() == old(self).contents().insert(index as int, value),
    ;

    fn remove(&mut self, index: usize) -> (r: Option<C>)
        requires
            old(self).inv(),
        ensures
            final(self).inv(),
            final(self).contents() == old(self).contents().remove(index as int),
            match r {
                Some(c) => old(self).contents().dom().contains(index as int) && c == old(
                    self,
                ).contents()[index as int],
                None => !old(self).contents().dom().contains(index as int),
            },
    ;
}

/// A dense column: a growable array of optional values indexed directly by
/// entity index.
pub struct DenseList<C> {
    pub(crate) slots: Vec<Option<C>>,
}

impl<C> DenseList<C> {
    pub fn new() -> (r: DenseList<C>)
        ensures
            r.inv(),
            r.contents() == Map::<int, C>::empty(),
    {
        let r = DenseList { slots: Vec::new() };
        proof {
            assert(r.contents() =~= Map::<int, C>::empty());
        }
        r
    }
}

impl<C> ComponentList<C> for DenseList<C> {
    closed spec fn contents(&self) -> Map<int, C> {
        Map::new(
            |i: int| 0 <= i < self.slots@.len() && self.slots@[i] is Some,
            |i: int| self.slots@[i]->0,
        )
    }

    closed spec fn inv(&self) -> bool {
        true
    }

    fn contains_key(&self, index: usize) -> (r: bool) {
        index < self.slots.len() && self.slots[index].is_some()
    }

    fn get(&self, index: usize) -> (r: Option<&C>) {
        if index < self.slots.len() {
            match &self.slots[index] {
                Some(c) => Some(c),
                None => None,
            }
        } else {
            None
        }
    }

    fn get_mut(&mut self, index: usize) -> (r: Option<&mut C>) {
        if index < self.slots.len() {
            proof {
                if self.slots@[index as int] is None {
                    assert(self.slots@.update(index as int, None::<C>) =~= self.slots@);
                }
                assert forall|v: C|
                    Map::new(
                        |i: int| 0 <= i < self.slots@.update(index as int, Some(v)).len()
                            && self.slots@.update(index as int, Some(v))[i] is Some,
                        |i: int| self.slots@.update(index as int, Some(v))[i]->0,
                    ) == self.contents().insert(index as int, v) by {
                    assert(Map::new(
                        |i: int| 0 <= i < self.slots@.update(index as int, Some(v)).len()
                            && self.slots@.update(index as int, Some(v))[i] is Some,
                        |i: int| self.slots@.update(index as int, Some(v))[i]->0,
                    ) =~= self.contents().insert(index as int, v));
                }
            }
            let slot = &mut self.slots[index];
            slot.as_mut()
        } else {
            None
        }
    }

    fn insert(&mut self, index: usize, value: C) {
        while self.slots.len() <= index
            invariant
                self.slots@.len() >= old(self).slots@.len(),
                forall|i: int|
                    0 <= i < self.slots@.len() ==> self.slots@[i]
                        == if 0 <= i < old(self).slots@.len() {
                            old(self).slots@[i]
                        } else {
                            None::<C>
                        },
            decreases index + 1 - self.slots.len(),
        {
            self.slots.push(None);
        }
        self.slots.set(index, Some(value));
        proof {
            assert(self.contents() =~= old(self).contents().insert(index as int, value));
        }
    }

    fn remove(&mut self, index: usize) -> (r: Option<C>) {
        if index < self.slots.len() {
            let slot = &mut self.slots[index];
            let r = slot.take();
            proof {
                assert(self.contents() =~= old(self).contents().remove(index as int));
            }
            r
        } else {
            proof {
                assert(self.contents() =~= old(self).contents().remove(index as int));
            }
            None
        }
    }
}

/// A sparse column: an association list from entity index to value, with
/// each index occurring at most once.
pub struct SparseList<C> {
    pub(crate) entries: Vec<(usize, C)>,
}

/// The map an association list denotes, later entries overriding earlier
/// ones (with distinct keys the order never matters).
pub open spec fn assoc_contents<C>(s: Seq<(usize, C)>) -> Map<int, C>
    decreases s.len(),
{
    if s.len() == 0 {
        Map::empty()
    } else {
        assoc_contents(s.drop_last()).insert(s.last().0 as int, s.last().1)
    }
}

/// Distinctness of the keys of an association list.
pub open spec fn assoc_distinct<C>(s: Seq<(usize, C)>) -> bool {
    forall|i: int, j: int| 0 <= i < j < s.len() ==> (#[trigger] s[i]).0 != (#[trigger] s[j]).0
}

/// A key that no entry carries is not in the denoted map.
proof fn lemma_assoc_not_contains<C>(s: Seq<(usize, C)>, k: int)
    requires
        forall|i: int| 0 <= i < s.len() ==> (#[trigger] s[i]).0 != k,
    ensures
        !assoc_contents(s).dom().contains(k),
    decreases s.len(),
{
    if s.len() > 0 {
        lemma_assoc_not_contains(s.drop_last(), k);
    }
}

/// With distinct keys, every entry is reflected exactly in the denoted map.
proof fn lemma_assoc_get<C>(s: Seq<(usize, C)>, i: int)
    requires
        assoc_distinct(s),
        0 <= i < s.len(),
    ensures
        assoc_contents(s).dom().contains(s[i].0 as int),
        assoc_contents(s)[s[i].0 as int] == s[i].1,
    decreases s.len(),
{
    if i < s.len() - 1 {
        lemma_assoc_get(s.drop_last(), i);
    }
}

/// With distinct keys, removing the entry that carries a key removes
/// exactly that key from the denoted map.
proof fn lemma_assoc_remove<C>(s: Seq<(usize, C)>, i: int)
    requires
        assoc_distinct(s),
        0 <= i < s.len(),
    ensures
        assoc_contents(s.remove(i)) == assoc_contents(s).remove(s[i].0 as int),
    decreases s.len(),
{
    let k = s[i].0 as int;
    if i == s.len() - 1 {
        assert(s.remove(i) =~= s.drop_last());
        lemma_assoc_not_contains(s.drop_last(), k);
        assert(assoc_contents(s.drop_last()) =~= assoc_contents(s).remove(k));
    } else {
        lemma_assoc_remove(s.drop_last(), i);
        assert(s.remove(i).drop_last() =~= s.drop_last().remove(i));
        assert(s.remove(i).last() == s.last());
        assert(assoc_contents(s.remove(i)) == assoc_contents(s.drop_last().remove(i)).insert(
            s.last().0 as int,
            s.last().1,
        ));
        assert(assoc_contents(s.drop_last()).remove(k).insert(s.last().0 as int, s.last().1)
            =~= assoc_contents(s.drop_last()).insert(s.last().0 as int, s.last().1).remove(k));
    }
}

impl<C> SparseList<C> {
    pub fn new() -> (r: SparseList<C>)
        ensures
            r.inv(),
            r.contents() == Map::<int, C>::empty(),
    {
        SparseList { entries: Vec::new() }
    }

    /// The position of the entry carrying an index, if any entry does.
    fn find(&self, index: usize) -> (r: Option<usize>)
        ensures
            match r {
                Some(i) => i < self.entries@.len() && self.entries@[i as int].0 == index,
                None => forall|j: int|
                    0 <= j < self.entries@.len() ==> (#[trigger] self.entries@[j]).0 != index,
            },
    {
        let n = self.entries.len();
        let mut i: usize = 0;
        while i < n
            invariant
                n == self.entries@.len(),
                i <= n,
                forall|j: int| 0 <= j < i ==> (#[trigger] self.entries@[j]).0 != index,
            decreases n - i,
        {
            if self.entries[i].0 == index {
                return Some(i);
            }
            i = i + 1;
        }
        None
    }
}

impl<C> ComponentList<C> for SparseList<C> {
    closed spec fn contents(&self) -> Map<int, C> {
        assoc_contents(self.entries@)
    }

    closed spec fn inv(&self) -> bool {
        assoc_distinct(self.entries@)
    }

    fn contains_key(&self, index: usize) -> (r: bool) {
        match self.find(index) {
            Some(i) => {
                proof {
                    lemma_assoc_get(self.entries@, i as int);
                }
                true
            },
            None => {
                proof {
                    lemma_assoc_not_contains(self.entries@, index as int);
                }
                false
            },
        }
    }

    fn get(&self, index: usize) -> (r: Option<&C>) {
        match self.find(index) {
            Some(i) => {
                proof {
                    lemma_assoc_get(self.entries@, i as int);
                }
                Some(&self.entries[i].1)
            },
            None => {
                proof {
                    lemma_assoc_not_contains(self.entries@, index as int);
                }
                None
            },
        }
    }

    fn get_mut(&mut self, index: usize) -> (r: Option<&mut C>) {
        match self.find(index) {
            Some(i) => {
                proof {
                    lemma_assoc_get(self.entries@, i as int);
                    lemma_assoc_remove(self.entries@, i as int);
                    self.entries@.remove_ensures(i as int);
                }
                let (k0, v0) = self.entries.remove(i);
                proof {
                    let prev = old(self).entries@;
                    assert forall|j: int|
                        0 <= j < self.entries@.len() implies (#[trigger] self.entries@[j]).0
                        != index by {
                        if j < i {
                            assert(self.entries@[j] == prev[j]);
                        } else {
                            assert(self.entries@[j] == prev[j + 1]);
                        }
                    }
                    assert forall|a: int, b: int|
                        0 <= a < b < self.entries@.len() implies (#[trigger] self.entries@[a]).0
                        != (#[trigger] self.entries@[b]).0 by {
                        if b < i {
                            assert(self.entries@[a] == prev[a] && self.entries@[b] == prev[b]);
                        } else if a < i {
                            assert(self.entries@[a] == prev[a] && self.entries@[b] == prev[b + 1]);
                        } else {
                            assert(self.entries@[a] == prev[a + 1] && self.entries@[b] == prev[b
                                + 1]);
                        }
                    }
                }
                let ghost mid = self.entries@;
                self.entries.push((k0, v0));
                let last = self.entries.len() - 1;
                proof {
                    assert(self.entries@.drop_last() =~= mid);
                    assert(assoc_contents(self.entries@) == assoc_contents(mid).insert(
                        k0 as int,
                        v0,
                    ));
                    assert(assoc_contents(mid).insert(k0 as int, v0) =~= old(self).contents());
                    assert forall|v: C|
                        assoc_contents(
                            #[trigger] self.entries@.update(last as int, (k0, v)),
                        ) == old(self).contents().insert(k0 as int, v) && assoc_distinct(
                            self.entries@.update(last as int, (k0, v)),
                        ) by {
                        let upd = self.entries@.update(last as int, (k0, v));
                        assert(upd.drop_last() =~= mid);
                        assert(upd.last() == (k0, v));
                        assert(assoc_contents(upd) == assoc_contents(mid).insert(k0 as int, v));
                        assert(assoc_contents(mid).insert(k0 as int, v) =~= old(
                            self,
                        ).contents().insert(k0 as int, v));
                        assert forall|a: int, b: int|
                            0 <= a < b < upd.len() implies (#[trigger] upd[a]).0
                            != (#[trigger] upd[b]).0 by {
                            assert(upd[a].0 == self.entries@[a].0);
                            assert(upd[b].0 == self.entries@[b].0);
                        }
                    }
                }
                let entry = &mut self.entries[last];
                Some(&mut entry.1)
            },
            None => {
                proof {
                    lemma_assoc_not_contains(self.entries@, index as int);
                }
                None
            },
        }
    }

    fn insert(&mut self, index: usize, value: C) {
        match self.find(index) {
            Some(i) => {
                proof {
                    lemma_assoc_remove(self.entries@, i as int);
                    self.entries@.remove_ensures(i as int);
                }
                self.entries.remove(i);
                proof {
                    let prev = old(self).entries@;
                    assert forall|j: int|
                        0 <= j < self.entries@.len() implies (#[trigger] self.entries@[j]).0
                        != index by {
                        if j < i {
                            assert(self.entries@[j] == prev[j]);
                        } else {
                            assert(self.entries@[j] == prev[j + 1]);
                        }
                    }
                    assert forall|a: int, b: int|
                        0 <= a < b < self.entries@.len() implies (#[trigger] self.entries@[a]).0
                        != (#[trigger] self.entries@[b]).0 by {
                        if b < i {
                            assert(self.entries@[a] == prev[a] && self.entries@[b] == prev[b]);
                        } else if a < i {
                            assert(self.entries@[a] == prev[a] && self.entries@[b] == prev[b + 1]);
                        } else {
                            assert(self.entries@[a] == prev[a + 1] && self.entries@[b] == prev[b
                                + 1]);
                        }
                    }
                }
            },
            None => {
                proof {
                    lemma_assoc_not_contains(self.entries@, index as int);
                    assert(assoc_contents(self.entries@) =~= assoc_contents(
                        self.entries@,
                    ).remove(index as int));
                }
            },
        }
        let ghost mid = self.entries@;
        self.entries.push((index, value));
        proof {
            assert(self.entries@.drop_last() =~= mid);
            assert(assoc_contents(self.entries@) == assoc_contents(mid).insert(
                index as int,
                value,
            ));
            assert(old(self).contents().remove(index as int).insert(index as int, value)
                =~= old(self).contents().insert(index as int, value));
        }
    }

    fn remove(&mut self, index: usize) -> (r: Option<C>) {
        match self.find(index) {
            Some(i) => {
                proof {
                    lemma_assoc_get(self.entries@, i as int);
                    lemma_assoc_remove(self.entries@, i as int);
                    self.entries@.remove_ensures(i as int);
                }
                let (_, value) = self.entries.remove(i);
                Some(value)
            },
            None => {
                proof {
                    lemma_assoc_not_contains(self.entries@, index as int);
                    assert(assoc_contents(self.entries@) =~= assoc_contents(
                        self.entries@,
                    ).remove(index as int));
                }
                None
            },
        }
    }
}

/// A column of either backing, chosen at registration time.
pub enum ColumnStore<C> {
    Dense(DenseList<C>),
    Sparse(SparseList<C>),
}

impl<C> ColumnStore<C> {
    /// An empty column of the requested backing.
    pub fn new_column(backing: Backing) -> (r: ColumnStore<C>)
        ensures
            r.inv(),
            r.contents() == Map::<int, C>::empty(),
    {
        match backing {
            Backing::Dense => ColumnStore::Dense(DenseList::new()),
            Backing::Sparse => ColumnStore::Sparse(SparseList::new()),
        }
    }
}

impl<C> ComponentList<C> for ColumnStore<C> {
    open spec fn contents(&self) -> Map<int, C> {
        match self {
            ColumnStore::Dense(d) => d.contents(),
            ColumnStore::Sparse(s) => s.contents(),
        }
    }

    open spec fn inv(&self) -> bool {
        match self {
            ColumnStore::Dense(d) => d.inv(),
            ColumnStore::Sparse(s) => s.inv(),
        }
    }

    fn contains_key(&self, index: usize) -> (r: bool) {
        match self {
            ColumnStore::Dense(d) => d.contains_key(index),
            ColumnStore::Sparse(s) => s.contains_key(index),
        }
    }

    fn get(&self, index: usize) -> (r: Option<&C>) {
        match self {
            ColumnStore::Dense(d) => d.get(index),
            ColumnStore::Sparse(s) => s.get(index),
        }
    }

    fn get_mut(&mut self, index: usize) -> (r: Option<&mut C>) {
        match self {
            ColumnStore::Dense(d) => d.get_mut(index),
            ColumnStore::Sparse(s) => s.get_mut(index),
        }
    }

    fn insert(&mut self, index: usize, value: C) {
        match self {
            ColumnStore::Dense(d) => d.insert(index, value),
            ColumnStore::Sparse(s) => s.insert(index, value),
        }
    }

    fn remove(&mut self, index: usize) -> (r: Option<C>) {
        match self {
            ColumnStore::Dense(d) => d.remove(index),
            ColumnStore::Sparse(s) => s.remove(index),
        }
    }
}

/// The registration record of one component type: its slot (the bit
/// position in every presence bitset), the type-identifier key it was
/// registered under, and its column.
pub struct ComponentData<C> {
    pub index: usize,
    pub key: u64,
    pub list: ColumnStore<C>,
}

/// The mathematical state of a store: the registered type keys in slot
/// order, one presence bit row per created entity, and one column map per
/// slot.
pub ghost struct StoreModel<C> {
    pub keys: Seq<u64>,
    pub masks: Seq<Seq<bool>>,
    pub cols: Seq<Map<int, C>>,
}

/// Well-formedness of a store state: one column per key, distinct keys,
/// every bit row as wide as the slot count, and a set presence bit only
/// where the corresponding column holds a value for that entity index.
pub open spec fn store_wf<C>(s: StoreModel<C>) -> bool {
    &&& s.cols.len() == s.keys.len()
    &&& forall|i: int, j: int| 0 <= i < j < s.keys.len() ==> s.keys[i] != s.keys[j]
    &&& forall|i: int| 0 <= i < s.masks.len() ==> (#[trigger] s.masks[i]).len() == s.keys.len()
    &&& forall|i: int, j: int|
        0 <= i < s.masks.len() && 0 <= j < s.keys.len() && #[trigger] s.masks[i][j]
            ==> s.cols[j].dom().contains(i)
}

/// Whether a type key has been registered.
pub open spec fn registered<C>(s: StoreModel<C>, key: u64) -> bool {
    s.keys.contains(key)
}

/// The slot a registered key was assigned (unique since keys are distinct).
pub open spec fn slot_of<C>(s: StoreModel<C>, key: u64) -> int {
    choose|i: int| 0 <= i < s.keys.len() && s.keys[i] == key
}

/// What registering a fresh key does: the key gains the next slot with an
/// empty column, and every existing bit row grows by one unset bit.
pub open spec fn spec_register<C>(s: StoreModel<C>, key: u64) -> StoreModel<C> {
    StoreModel {
        keys: s.keys.push(key),
        masks: s.masks.map_values(|row: Seq<bool>| row.push(false)),
        cols: s.cols.push(Map::empty()),
    }
}

/// What an entity-created notification does: a new all-unset bit row is
/// appended when the entity's index is the next row, and nothing otherwise.
pub open spec fn spec_notify_created<C>(s: StoreModel<C>, i: int) -> StoreModel<C> {
    if i == s.masks.len() {
        StoreModel {
            keys: s.keys,
            masks: s.masks.push(Seq::new(s.keys.len(), |j: int| false)),
            cols: s.cols,
        }
    } else {
        s
    }
}

/// What an entity-destroyed notification does: the entity's bit row is
/// cleared; columns may keep stale values, which the cleared bits void.
pub open spec fn spec_clear_row<C>(s: StoreModel<C>, i: int) -> StoreModel<C> {
    StoreModel {
        keys: s.keys,
        masks: s.masks.update(i, Seq::new(s.keys.len(), |j: int| false)),
        cols: s.cols,
    }
}

/// What assigning a component does: the column gains (or overwrites) the
/// value at the entity's index, and the presence bit is set, together.
pub open spec fn spec_assign<C>(s: StoreModel<C>, i: int, slot: int, value: C) -> StoreModel<C> {
    StoreModel {
        keys: s.keys,
        masks: s.masks.update(i, s.masks[i].update(slot, true)),
        cols: s.cols.update(slot, s.cols[slot].insert(i, value)),
    }
}

/// What removing a component does: the column entry and the presence bit
/// go away together.
pub open spec fn spec_remove<C>(s: StoreModel<C>, i: int, slot: int) -> StoreModel<C> {
    StoreModel {
        keys: s.keys,
        masks: s.masks.update(i, s.masks[i].update(slot, false)),
        cols: s.cols.update(slot, s.cols[slot].remove(i)),
    }
}

/// Whether the entity at an index currently owns a component of a slot.
pub open spec fn has_spec<C>(s: StoreModel<C>, i: int, slot: int) -> bool {
    s.masks[i][slot]
}

/// The component the entity at an index logically owns for a slot: the
/// column value when the presence bit is set, nothing otherwise, whatever
/// stale data the column may hold.
pub open spec fn component_of<C>(s: StoreModel<C>, i: int, slot: int) -> Option<C> {
    if s.masks[i][slot] {
        Some(s.cols[slot][i])
    } else {
        None
    }
}

/// Owns component data: one column per registered type and one presence
/// bitset per created entity, mutated only in lock-step.
pub struct ComponentManager<C> {
    pub(crate) entity_component_masks: Vec<Vec<bool>>,
    pub(crate) next_component_index: usize,
    pub(crate) component_data: Vec<ComponentData<C>>,
}

impl<C> View for ComponentManager<C> {
    type V = StoreModel<C>;

    closed spec fn view(&self) -> StoreModel<C> {
        StoreModel {
            keys: self.component_data@.map_values(|d: ComponentData<C>| d.key),
            masks: self.entity_component_masks@.map_values(|row: Vec<bool>| row@),
            cols: self.component_data@.map_values(|d: ComponentData<C>| d.list.contents()),
        }
    }
}

impl<C> ComponentManager<C> {
    /// The exec structure behind the model: the slot counter matches the
    /// registry, every record remembers its own slot, and every column
    /// satisfies its backing's invariant.
    pub closed spec fn internal_inv(&self) -> bool {
        &&& self.next_component_index == self.component_data@.len()
        &&& forall|i: int|
            0 <= i < self.component_data@.len() ==> (#[trigger] self.component_data@[i]).index
                == i && self.component_data@[i].list.inv()
    }

    pub open spec fn wf(&self) -> bool {
        store_wf(self@) && self.internal_inv()
    }

    pub fn new(initial_capacity: usize) -> (r: ComponentManager<C>)
        ensures
            r.wf(),
            r@.keys.len() == 0,
            r@.masks.len() == 0,
            r@.cols.len() == 0,
    {
        ComponentManager {
            entity_component_masks: Vec::with_capacity(initial_capacity),
            next_component_index: 0,
            component_data: Vec::new(),
        }
    }

    /// The slot of a key, when the key is registered.
    pub(crate) fn lookup(&self, key: u64) -> (r: Option<usize>)
        requires
            self.wf(),
        ensures
            match r {
                Some(slot) => registered(self@, key) && slot as int == slot_of(self@, key)
                    && slot < self@.keys.len() && self@.keys[slot as int] == key,
                None => !registered(self@, key),
            },
    {
        let n = self.component_data.len();
        let mut i: usize = 0;
        while i < n
            invariant
                self.wf(),
                n == self.component_data@.len(),
                i <= n,
                forall|j: int| 0 <= j < i ==> (#[trigger] self.component_data@[j]).key != key,
            decreases n - i,
        {
            if self.component_data[i].key == key {
                proof {
                    assert(self@.keys[i as int] == key);
                    let c = slot_of(self@, key);
                    assert(self@.keys[c] == key);
                }
                return Some(i);
            }
            i = i + 1;
        }
        proof {
            assert forall|j: int| 0 <= j < self@.keys.len() implies self@.keys[j] != key by {
                assert(self@.keys[j] == self.component_data@[j].key);
            }
        }
        None
    }

    /// Whether a type key has been registered.
    pub fn is_registered(&self, key: u64) -> (r: bool)
        requires
            self.wf(),
        ensures
            r == registered(self@, key),
    {
        self.lookup(key).is_some()
    }

    /// Notification that the allocator issued an entity: appends a new
    /// all-unset bit row when the index is fresh.  Entities must be
    /// announced in the order their indices are first issued.
    pub fn entity_created(&mut self, entity: &Entity)
        requires
            old(self).wf(),
            entity.index <= old(self)@.masks.len(),
        ensures
            final(self).wf(),
            final(self)@ == spec_notify_created(old(self)@, entity.index as int),
    {
        if self.entity_component_masks.len() == entity.index {
            let row = vec![false; self.next_component_index];
            self.entity_component_masks.push(row);
            proof {
                assert(row@ =~= Seq::new(old(self)@.keys.len(), |j: int| false));
                assert(self@.masks =~= spec_notify_created(
                    old(self)@,
                    entity.index as int,
                ).masks);
            }
        }
    }

    /// Notification that the allocator destroyed an entity: clears its bit
    /// row, voiding whatever its columns still hold.
    pub fn entity_destroyed(&mut self, entity: &Entity)
        requires
            old(self).wf(),
            entity.index < old(self)@.masks.len(),
        ensures
            final(self).wf(),
            final(self)@ == spec_clear_row(old(self)@, entity.index as int),
    {
        let row = vec![false; self.next_component_index];
        proof {
            assert(row@ =~= Seq::new(old(self)@.keys.len(), |j: int| false));
        }
        self.entity_component_masks.set(entity.index, row);
        proof {
            assert(self@.masks =~= spec_clear_row(old(self)@, entity.index as int).masks);
        }
    }

    /// Registers a component type key with a column of the chosen backing.
    /// Fails, leaving the store unchanged, exactly when the key is already
    /// registered; on success every existing entity's bit row grows by one
    /// unset bit.
    pub fn register_component(&mut self, key: u64, backing: Backing) -> (r: Result<
        (),
        EcsError,
    >)
        requires
            old(self).wf(),
        ensures
            final(self).wf(),
            r is Ok <==> !registered(old(self)@, key),
            r is Ok ==> final(self)@ == spec_register(old(self)@, key),
            r is Err ==> *final(self) == *old(self) && r == Err::<(), EcsError>(
                EcsError::AlreadyRegistered,
            ),
    {
        match self.lookup(key) {
            Some(_) => {
                return Err(EcsError::AlreadyRegistered);
            },
            None => {},
        }
        let slot = self.next_component_index;
        self.component_data.push(
            ComponentData { index: slot, key, list: ColumnStore::new_column(backing) },
        );
        self.next_component_index = self.component_data.len();
        let ghost mid = *self;
        let n = self.entity_component_masks.len();
        let mut i: usize = 0;
        while i < n
            invariant
                n == self.entity_component_masks@.len(),
                i <= n,
                self.component_data@ == mid.component_data@,
                self.next_component_index == mid.next_component_index,
                forall|j: int|
                    i <= j < n ==> #[trigger] self.entity_component_masks@[j]
                        == mid.entity_component_masks@[j],
                forall|j: int|
                    0 <= j < i ==> (#[trigger] self.entity_component_masks@[j])@
                        == mid.entity_component_masks@[j]@.push(false),
            decreases n - i,
        {
            let row = &mut self.entity_component_masks[i];
            row.push(false);
            i = i + 1;
        }
        proof {
            assert(self@.keys =~= spec_register(old(self)@, key).keys);
            assert(self@.cols =~= spec_register(old(self)@, key).cols);
            assert(self@.masks =~= spec_register(old(self)@, key).masks);
            assert(store_wf(self@));
        }
        Ok(())
    }

    /// Adds or replaces a component on an entity: the column entry and the
    /// presence bit change together.  Assigning over an existing value is
    /// an upsert, not an error.
    pub fn assign_component(&mut self, entity: &Entity, key: u64, value: C)
        requires
            old(self).wf(),
            registered(old(self)@, key),
            entity.index < old(self)@.masks.len(),
        ensures
            final(self).wf(),
            final(self)@ == spec_assign(
                old(self)@,
                entity.index as int,
                slot_of(old(self)@, key),
                value,
            ),
    {
        let slot = match self.lookup(key) {
            Some(s) => s,
            None => {
                proof {
                    assert(false);
                }
                0
            },
        };
        let data = &mut self.component_data[slot];
        data.list.insert(entity.index, value);
        proof {
            assert(old(self)@.masks[entity.index as int].len() == old(self)@.keys.len());
        }
        let row = &mut self.entity_component_masks[entity.index];
        row.set(slot, true);
        proof {
            let target = spec_assign(
                old(self)@,
                entity.index as int,
                slot_of(old(self)@, key),
                value,
            );
            assert(self@.keys =~= target.keys);
            assert(self@.cols =~= target.cols);
            assert(self@.masks =~= target.masks);
            assert(store_wf(self@));
        }
    }

    /// Removes a component from an entity: the column entry (if present)
    /// and the presence bit go away together.
    pub fn remove_component(&mut self, entity: &Entity, key: u64)
        requires
            old(self).wf(),
            registered(old(self)@, key),
            entity.index < old(self)@.masks.len(),
        ensures
            final(self).wf(),
            final(self)@ == spec_remove(
                old(self)@,
                entity.index as int,
                slot_of(old(self)@, key),
            ),
    {
        let slot = match self.lookup(key) {
            Some(s) => s,
            None => {
                proof {
                    assert(false);
                }
                0
            },
        };
        let data = &mut self.component_data[slot];
        data.list.remove(entity.index);
        proof {
            assert(old(self)@.masks[entity.index as int].len() == old(self)@.keys.len());
        }
        let row = &mut self.entity_component_masks[entity.index];
        row.set(slot, false);
        proof {
            let target = spec_remove(old(self)@, entity.index as int, slot_of(old(self)@, key));
            assert(self@.keys =~= target.keys);
            assert(self@.cols =~= target.cols);
            assert(self@.masks =~= target.masks);
            assert(store_wf(self@));
        }
    }

    /// Reads the presence bit of a type for an entity.
    pub fn has_component(&self, entity: &Entity, key: u64) -> (r: bool)
        requires
            self.wf(),
            registered(self@, key),
            entity.index < self@.masks.len(),
        ensures
            r == has_spec(self@, entity.index as int, slot_of(self@, key)),
    {
        let slot = match self.lookup(key) {
            Some(s) => s,
            None => {
                proof {
                    assert(false);
                }
                0
            },
        };
        proof {
            assert(self@.masks[entity.index as int].len() == self@.keys.len());
        }
        self.entity_component_masks[entity.index][slot]
    }

    /// The component an entity logically owns for a type: the column value
    /// exactly when the presence bit is set, independent of stale column
    /// data left by a destroyed owner.
    pub fn get_component(&self, entity: &Entity, key: u64) -> (r: Option<&C>)
        requires
            self.wf(),
            registered(self@, key),
            entity.index < self@.masks.len(),
        ensures
            match r {
                Some(c) => component_of(self@, entity.index as int, slot_of(self@, key)) == Some(
                    *c,
                ),
                None => component_of(self@, entity.index as int, slot_of(self@, key)) is None,
            },
    {
        let slot = match self.lookup(key) {
            Some(s) => s,
            None => {
                proof {
                    assert(false);
                }
                0
            },
        };
        if self.entity_component_masks[entity.index][slot] {
            match self.component_data[slot].list.get(entity.index) {
                Some(c) => Some(c),
                None => {
                    proof {
                        assert(false);
                    }
                    None
                },
            }
        } else {
            None
        }
    }

    /// Exclusive access to the component an entity logically owns for a
    /// type: a mutable reference to the column value exactly when the
    /// presence bit is set, independent of stale column data.  Writing
    /// through the reference is the same upsert an assign performs.
    pub fn get_component_mut(&mut self, entity: &Entity, key: u64) -> (r: Option<&mut C>)
        requires
            old(self).wf(),
            registered(old(self)@, key),
            entity.index < old(self)@.masks.len(),
        ensures
            final(self).wf(),
            r.is_none() ==> component_of(
                old(self)@,
                entity.index as int,
                slot_of(old(self)@, key),
            ) is None && final(self)@ == old(self)@,
            r.is_some() ==> component_of(
                old(self)@,
                entity.index as int,
                slot_of(old(self)@, key),
            ) == Some(*r.unwrap()) && final(self)@ == spec_assign(
                old(self)@,
                entity.index as int,
                slot_of(old(self)@, key),
                *final(r.unwrap()),
            ),
    {
        let slot = match self.lookup(key) {
            Some(s) => s,
            None => {
                proof {
                    assert(false);
                }
                0
            },
        };
        proof {
            assert(self@.masks[entity.index as int].len() == self@.keys.len());
        }
        if !self.entity_component_masks[entity.index][slot] {
            return None;
        }
        let ghost i = entity.index as int;
        let ghost slotz = slot as int;
        let ghost s0 = old(self)@;
        proof {
            // presence implies the column holds a value at this index
            assert(s0.cols[slotz].dom().contains(i));
            // the presence bit is already set, so the bit rows do not change
            assert(s0.masks[i][slotz]);
            assert(s0.masks[i].update(slotz, true) =~= s0.masks[i]);
            assert(s0.masks.update(i, s0.masks[i].update(slotz, true)) =~= s0.masks);
            // whatever value ends up behind the reference, the store is
            // exactly the one an assign of that value would leave
            assert forall|l: ColumnStore<C>, v: C|
                (l.inv() && l.contents() == s0.cols[slotz].insert(i, v)) implies ({
                    let upd = self.component_data@.update(
                        slotz,
                        ComponentData { index: slot, key, list: l },
                    );
                    &&& upd.map_values(|dd: ComponentData<C>| dd.key) == s0.keys
                    &&& upd.map_values(|dd: ComponentData<C>| dd.list.contents()) == spec_assign(
                        s0,
                        i,
                        slotz,
                        v,
                    ).cols
                    &&& forall|j: int|
                        0 <= j < upd.len() ==> (#[trigger] upd[j]).index == j
                            && upd[j].list.inv()
                }) by {
                let upd = self.component_data@.update(
                    slotz,
                    ComponentData { index: slot, key, list: l },
                );
                assert(upd.map_values(|dd: ComponentData<C>| dd.key) =~= s0.keys);
                assert(upd.map_values(|dd: ComponentData<C>| dd.list.contents()) =~= spec_assign(
                    s0,
                    i,
                    slotz,
                    v,
                ).cols);
            }
            assert forall|v: C| store_wf(#[trigger] spec_assign(s0, i, slotz, v)) by {
                lemma_assign_wf(s0, i, slotz, v);
            }
        }
        let data = &mut self.component_data[slot];
        let r = data.list.get_mut(entity.index);
        proof {
            assert(r.is_some());
        }
        r
    }

    /// The registration record of a registered key: its slot and column.
    pub fn get_component_data(&self, key: u64) -> (r: &ComponentData<C>)
        requires
            self.wf(),
            registered(self@, key),
        ensures
            r.index as int == slot_of(self@, key),
            r.key == key,
            r.list.inv(),
            r.list.contents() == self@.cols[slot_of(self@, key)],
    {
        let slot = match self.lookup(key) {
            Some(s) => s,
            None => {
                proof {
                    assert(false);
                }
                0
            },
        };
        &self.component_data[slot]
    }

    /// The presence bit row of an entity.
    pub fn get_entity_component_mask(&self, entity: &Entity) -> (r: &Vec<bool>)
        requires
            entity.index < self@.masks.len(),
        ensures
            r@ == self@.masks[entity.index as int],
    {
        &self.entity_component_masks[entity.index]
    }

    /// How many component types have been registered.
    pub fn get_components_length(&self) -> (r: usize)
        requires
            self.wf(),
        ensures
            r == self@.keys.len(),
    {
        self.next_component_index
    }
}

/// Assigning keeps a store well-formed: the presence bit and the column
/// entry are set together, and nothing else moves.
proof fn lemma_assign_wf<C>(s: StoreModel<C>, i: int, slot: int, v: C)
    requires
        store_wf(s),
        0 <= i < s.masks.len(),
        0 <= slot < s.keys.len(),
    ensures
        store_wf(spec_assign(s, i, slot, v)),
{
}

/// Presence/column coherence: for every entity index and registered slot,
/// the presence bit is set exactly when the entity logically owns a
/// component of that slot, after any sequence of assigns and removes.
pub proof fn lemma_presence_column_coherence<C>(s: StoreModel<C>, i: int, slot: int)
    requires
        store_wf(s),
        0 <= i < s.masks.len(),
        0 <= slot < s.keys.len(),
    ensures
        has_spec(s, i, slot) == component_of(s, i, slot) is Some,
{
}

/// Bitset growth: registering a new key never disturbs the presence bits
/// of the slots already registered, and no entity owns the new slot's
/// component immediately after registration.
pub proof fn lemma_register_preserves_presence<C>(s: StoreModel<C>, key: u64, i: int, slot: int)
    requires
        store_wf(s),
        !registered(s, key),
        0 <= i < s.masks.len(),
        0 <= slot < s.keys.len(),
    ensures
        has_spec(spec_register(s, key), i, slot) == has_spec(s, i, slot),
        !has_spec(spec_register(s, key), i, s.keys.len() as int),
{
}

} // verus!
