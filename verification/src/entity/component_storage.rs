//! The component directory: one sparse set per component type, all sized to
//! one shared capacity.

use crate::entity::sparse_set::SparseSet;
use std::collections::HashMap;
use vstd::prelude::*;

verus! {

/// A type whose values can be attached to entities as components of a
/// directory with cells of type `U`.
///
/// A directory keeps every component in a cell of the one type `U`. Each
/// component type names the column that it occupies and says how a value is
/// put into a cell and found in one again: `cell` and `held` state what
/// `into_cell` and `from_cell` compute.
pub trait Component<U>: Sized {
    /// Identity of the column that holds the components of this type.
    const COLUMN: u64;

    /// The cell that stores `self`.
    spec fn cell(self) -> U;

    /// The component of this type that `cell` stores, if it stores one.
    spec fn held(cell: U) -> Option<Self>;

    /// A component is found again in the cell that stores it.
    proof fn lemma_cell_holds(value: Self)
        ensures
            Self::held(value.cell()) == Some(value),
    ;

    /// Puts the component into a cell.
    fn into_cell(self) -> (cell: U)
        ensures
            cell == self.cell(),
    ;

    /// Borrows the component of this type that `cell` stores, if it stores one.
    fn from_cell(cell: &U) -> (component: Option<&Self>)
        ensures
            component.is_some() == Self::held(*cell).is_some(),
            component matches Some(value) ==> Self::held(*cell) == Some(*value),
    ;
}

/// Every type is a component of the directory whose cells are of that very
/// type: such a directory has the single column `0`.
impl<T> Component<T> for T {
    const COLUMN: u64 = 0;

    open spec fn cell(self) -> T {
        self
    }

    open spec fn held(cell: T) -> Option<T> {
        Some(cell)
    }

    proof fn lemma_cell_holds(value: T) {
    }

    fn into_cell(self) -> (cell: T) {
        self
    }

    fn from_cell(cell: &T) -> (component: Option<&T>) {
        Some(cell)
    }
}

/// The capacity that a directory of capacity `capacity` has once the entity
/// `entity_id` must be addressable: unchanged while the id fits, else twice
/// the capacity, or `entity_id + 1` where doubling does not reach the id or
/// does not fit the machine word.
pub open spec fn grown_capacity(capacity: nat, entity_id: nat) -> nat {
    if entity_id < capacity {
        capacity
    } else if entity_id < 2 * capacity <= usize::MAX {
        2 * capacity
    } else {
        entity_id + 1
    }
}

/// What a directory holds: its shared capacity and, for each registered
/// column, the cell of every entity that has a component there.
pub ghost struct StorageView<U> {
    pub capacity: nat,
    pub columns: Map<u64, Map<usize, U>>,
}

impl<U> StorageView<U> {
    /// The cells of the column `key`; none where the column is not registered.
    pub open spec fn column(self, key: u64) -> Map<usize, U> {
        if self.columns.contains_key(key) {
            self.columns[key]
        } else {
            Map::empty()
        }
    }

    /// The cell of `entity_id` in the column `key`, if there is one.
    pub open spec fn cell(self, key: u64, entity_id: usize) -> Option<U> {
        if self.column(key).contains_key(entity_id) {
            Some(self.column(key)[entity_id])
        } else {
            None
        }
    }

    /// The component of type `T` that `entity_id` has, if it has one.
    pub open spec fn component<T: Component<U>>(self, entity_id: usize) -> Option<T> {
        match self.cell(T::COLUMN, entity_id) {
            Some(cell) => T::held(cell),
            None => None,
        }
    }

    /// The directory with the column `key` registered anew, and so empty.
    pub open spec fn register(self, key: u64) -> Self {
        StorageView { capacity: self.capacity, columns: self.columns.insert(key, Map::empty()) }
    }

    /// The directory after `entity_id` got `cell` in the column `key`: the
    /// column is registered if it was not, the capacity has grown to address
    /// the entity, and no other cell has changed.
    pub open spec fn attach(self, key: u64, entity_id: usize, cell: U) -> Self {
        StorageView {
            capacity: grown_capacity(self.capacity, entity_id as nat),
            columns: self.columns.insert(key, self.column(key).insert(entity_id, cell)),
        }
    }

    /// The directory after every cell of `entity_id` was taken out.
    pub open spec fn purge(self, entity_id: usize) -> Self {
        StorageView {
            capacity: self.capacity,
            columns: self.columns.map_values(|column: Map<usize, U>| column.remove(entity_id)),
        }
    }
}

/// The component directory.
///
/// `storages` holds one sparse set per registered column, `positions` maps a
/// column's identity to the place of its sparse set, and every sparse set
/// addresses exactly the entity ids below `initial_capacity`.
pub struct ComponentStorage<U> {
    storages: Vec<SparseSet<U>>,
    positions: HashMap<u64, usize>,
    initial_capacity: usize,
}

impl<U> View for ComponentStorage<U> {
    type V = StorageView<U>;

    closed spec fn view(&self) -> StorageView<U> {
        StorageView {
            capacity: self.initial_capacity as nat,
            columns: Map::new(
                |key: u64| self.positions@.contains_key(key),
                |key: u64| self.storages@[self.positions@[key] as int]@,
            ),
        }
    }
}

impl<U> ComponentStorage<U> {
    /// Every column has its own well-formed sparse set, sized to the shared
    /// capacity.
    pub closed spec fn wf(&self) -> bool {
        &&& forall|key: u64| #[trigger]
            self.positions@.contains_key(key) ==> self.positions@[key] < self.storages@.len()
        &&& forall|a: u64, b: u64|
            self.positions@.contains_key(a) && self.positions@.contains_key(b)
                && #[trigger] self.positions@[a] == #[trigger] self.positions@[b] ==> a == b
        &&& forall|i: int|
            0 <= i < self.storages@.len() ==> {
                &&& (#[trigger] self.storages@[i]).wf()
                &&& self.storages@[i].capacity() == self.initial_capacity
            }
    }

    /// An empty directory with the shared capacity `initial_capacity`.
    pub fn new(initial_capacity: usize) -> (storage: Self)
        ensures
            storage.wf(),
            storage@ == (StorageView::<U> {
                capacity: initial_capacity as nat,
                columns: Map::empty(),
            }),
    {
        let storage = ComponentStorage {
            storages: Vec::new(),
            positions: HashMap::new(),
            initial_capacity,
        };
        assert(storage@.columns =~= Map::<u64, Map<usize, U>>::empty());
        storage
    }

    /// Registers the column of `T` anew: afterwards it exists and is empty,
    /// whether or not it existed before. No other column changes.
    pub fn register_component_type<T: Component<U>>(&mut self)
        requires
            old(self).wf(),
        ensures
            final(self).wf(),
            final(self)@ == old(self)@.register(T::COLUMN),
    {
        broadcast use vstd::std_specs::hash::group_hash_axioms;

        let ghost before = *self;
        let fresh = SparseSet::new(self.initial_capacity);
        match self.position_of(T::COLUMN) {
            Some(position) => {
                self.storages[position] = fresh;
            },
            None => {
                let position = self.storages.len();
                self.storages.push(fresh);
                self.positions.insert(T::COLUMN, position);
            },
        }
        assert(self@.columns =~= before@.register(T::COLUMN).columns);
    }

    /// Gives `entity_id` the component `component`, in place of the one of
    /// that column which it may have had.
    ///
    /// The column of `T` is registered if it was not, and where `entity_id`
    /// is beyond the shared capacity, the capacity grows for every column.
    pub fn add_component<T: Component<U>>(&mut self, entity_id: usize, component: T)
        requires
            old(self).wf(),
            entity_id < usize::MAX,
        ensures
            final(self).wf(),
            final(self)@ == old(self)@.attach(T::COLUMN, entity_id, component.cell()),
    {
        let ghost before = *self;
        if self.position_of(T::COLUMN).is_none() {
            self.register_component_type::<T>();
        }
        let ghost registered = *self;
        assert(registered@.columns.contains_key(T::COLUMN));
        assert(registered@.columns =~= before@.columns.insert(
            T::COLUMN,
            before@.column(T::COLUMN),
        ));
        if self.needs_sparse_set_resize(entity_id) {
            self.resize_sparse_set(entity_id);
        }
        let ghost resized = *self;
        assert(resized@.columns.contains_key(T::COLUMN));
        let position = self.position_of(T::COLUMN).unwrap();
        if self.storages[position].get_component(entity_id).is_some() {
            self.storages[position].remove(entity_id);
        }
        self.storages[position].add(entity_id, component.into_cell());
        proof {
            let attached = before@.attach(T::COLUMN, entity_id, component.cell());
            assert forall|key: u64| #[trigger]
                self@.columns.contains_key(key) implies self@.columns[key]
                == attached.columns[key] by {
                if key == T::COLUMN {
                    assert(resized@.columns[key] == before@.column(key));
                    assert(self.storages@[position as int]@ =~= before@.column(key).insert(
                        entity_id,
                        component.cell(),
                    ));
                } else {
                    assert(self.positions@[key] != position);
                    assert(resized@.columns[key] == before@.columns[key]);
                }
            }
            assert(self@.columns =~= attached.columns);
        }
    }

    /// Takes every component of `entity_id` out of every column.
    pub fn remove_all_components(&mut self, entity_id: usize)
        requires
            old(self).wf(),
        ensures
            final(self).wf(),
            final(self)@ == old(self)@.purge(entity_id),
    {
        let ghost before = *self;
        let mut position: usize = 0;
        while position < self.storages.len()
            invariant
                position <= self.storages@.len(),
                self.storages@.len() == before.storages@.len(),
                self.positions == before.positions,
                self.initial_capacity == before.initial_capacity,
                before.wf(),
                forall|i: int|
                    0 <= i < self.storages@.len() ==> {
                        &&& (#[trigger] self.storages@[i]).wf()
                        &&& self.storages@[i].capacity() == self.initial_capacity
                    },
                forall|i: int|
                    0 <= i < position ==> (#[trigger] self.storages@[i])@
                        == before.storages@[i]@.remove(entity_id),
                forall|i: int|
                    position <= i < self.storages@.len() ==> (#[trigger] self.storages@[i])
                        == before.storages@[i],
            decreases self.storages@.len() - position,
        {
            self.storages[position].remove(entity_id);
            position = position + 1;
        }
        assert(self@.columns =~= before@.purge(entity_id).columns);
    }

    /// The component of type `T` that `entity_id` has, if it has one.
    pub fn get_component<T: Component<U>>(&self, entity_id: usize) -> (component: Option<&T>)
        requires
            self.wf(),
        ensures
            component.is_some() == self@.component::<T>(entity_id).is_some(),
            component matches Some(value) ==> self@.component::<T>(entity_id) == Some(*value),
    {
        match self.get_sparse_set::<T>() {
            Some(sparse_set) => match sparse_set.get_component(entity_id) {
                Some(cell) => T::from_cell(cell),
                None => None,
            },
            None => None,
        }
    }

    /// Whether `entity_id` has a component of type `T`.
    pub fn has_component<T: Component<U>>(&self, entity_id: usize) -> (has: bool)
        requires
            self.wf(),
        ensures
            has == self@.component::<T>(entity_id).is_some(),
    {
        self.get_component::<T>(entity_id).is_some()
    }

    /// Whether `entity_id` is beyond what the columns address.
    fn needs_sparse_set_resize(&self, entity_id: usize) -> (needed: bool)
        ensures
            needed == (entity_id >= self.initial_capacity),
    {
        entity_id >= self.initial_capacity
    }

    /// Grows the shared capacity so that `entity_id` is addressable, and
    /// every column with it.
    fn resize_sparse_set(&mut self, entity_id: usize)
        requires
            old(self).wf(),
            entity_id < usize::MAX,
        ensures
            final(self).wf(),
            final(self)@.capacity == grown_capacity(old(self)@.capacity, entity_id as nat),
            final(self)@.columns == old(self)@.columns,
            final(self).positions == old(self).positions,
    {
        let ghost before = *self;
        let capacity = if entity_id < self.initial_capacity {
            self.initial_capacity
        } else {
            match self.initial_capacity.checked_mul(2) {
                Some(doubled) if doubled > entity_id => doubled,
                _ => entity_id + 1,
            }
        };
        self.initial_capacity = capacity;
        let mut position: usize = 0;
        while position < self.storages.len()
            invariant
                position <= self.storages@.len(),
                self.storages@.len() == before.storages@.len(),
                self.positions == before.positions,
                self.initial_capacity == capacity,
                capacity >= before.initial_capacity,
                before.wf(),
                forall|i: int|
                    0 <= i < self.storages@.len() ==> {
                        &&& (#[trigger] self.storages@[i]).wf()
                        &&& self.storages@[i]@ == before.storages@[i]@
                    },
                forall|i: int|
                    0 <= i < position ==> (#[trigger] self.storages@[i]).capacity() == capacity,
                forall|i: int|
                    position <= i < self.storages@.len() ==> (#[trigger] self.storages@[i]).capacity()
                        == before.initial_capacity,
            decreases self.storages@.len() - position,
        {
            self.storages[position].resize(capacity);
            position = position + 1;
        }
        assert(self@.columns =~= before@.columns);
    }

    /// The place of the sparse set of the column `key`, if it is registered.
    fn position_of(&self, key: u64) -> (position: Option<usize>)
        requires
            self.wf(),
        ensures
            position.is_some() == self.positions@.contains_key(key),
            position matches Some(p) ==> p == self.positions@[key] && p < self.storages@.len(),
    {
        broadcast use vstd::std_specs::hash::group_hash_axioms;

        match self.positions.get(&key) {
            Some(position) => Some(*position),
            None => None,
        }
    }

    /// The sparse set of the column of `T`, if it is registered.
    fn get_sparse_set<T: Component<U>>(&self) -> (sparse_set: Option<&SparseSet<U>>)
        requires
            self.wf(),
        ensures
            sparse_set.is_some() == self@.columns.contains_key(T::COLUMN),
            sparse_set matches Some(set) ==> set.wf() && set@ == self@.columns[T::COLUMN],
    {
        match self.position_of(T::COLUMN) {
            Some(position) => Some(&self.storages[position]),
            None => None,
        }
    }

    /// The shared capacity: every column addresses the entity ids below it.
    pub fn capacity(&self) -> (capacity: usize)
        ensures
            capacity == self@.capacity,
    {
        self.initial_capacity
    }
}

impl<U> Default for ComponentStorage<U> {
    /// An empty directory with the shared capacity 1000.
    fn default() -> (storage: Self)
        ensures
            storage.wf(),
            storage@ == (StorageView::<U> { capacity: 1000, columns: Map::empty() }),
    {
        Self::new(1000)
    }
}

/// A component that was attached to an entity is the component of its type
/// that the entity has.
pub proof fn lemma_attach_then_component<U, T: Component<U>>(
    storage: StorageView<U>,
    entity_id: usize,
    component: T,
)
    ensures
        storage.attach(T::COLUMN, entity_id, component.cell()).component::<T>(entity_id) == Some(
            component,
        ),
{
    T::lemma_cell_holds(component);
}

/// Attaching a component makes its entity addressable and never lowers the
/// capacity, and it leaves the cell of every other entity, and every cell of
/// every other column, as it was.
pub proof fn lemma_attach_grows_and_keeps<U>(
    storage: StorageView<U>,
    key: u64,
    entity_id: usize,
    cell: U,
    other_key: u64,
    other_entity: usize,
)
    requires
        other_key != key || other_entity != entity_id,
    ensures
        storage.attach(key, entity_id, cell).capacity >= entity_id + 1,
        storage.attach(key, entity_id, cell).capacity >= storage.capacity,
        storage.attach(key, entity_id, cell).cell(key, entity_id) == Some(cell),
        storage.attach(key, entity_id, cell).cell(other_key, other_entity) == storage.cell(
            other_key,
            other_entity,
        ),
{
}

/// Once the components of `entity_id` are purged, that entity has a cell in
/// no column, the same columns are registered, and every other entity has
/// the cells that it had.
pub proof fn lemma_purge_keeps_others<U>(
    storage: StorageView<U>,
    entity_id: usize,
    key: u64,
    other: usize,
)
    requires
        other != entity_id,
    ensures
        storage.purge(entity_id).capacity == storage.capacity,
        storage.purge(entity_id).columns.dom() == storage.columns.dom(),
        storage.purge(entity_id).cell(key, entity_id) is None,
        storage.purge(entity_id).cell(key, other) == storage.cell(key, other),
{
}

} // verus!
