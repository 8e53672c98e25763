//! Entities and the components attached to them.

pub mod component_storage;
pub mod sparse_set;

use crate::entity::component_storage::Component;
use crate::entity::component_storage::ComponentStorage;
use crate::entity::component_storage::StorageView;
use vstd::prelude::*;

verus! {

/// Why an operation on an entity was refused.
#[derive(Clone, Copy, Debug, PartialEq, Eq, Structural)]
pub enum EntityError {
    /// The id was never issued, or the entity that had it was removed.
    UnknownEntity(usize),
}

/// The state of the id allocator: every id below `next_id` was issued at
/// some time, and `free_ids` holds those that were given back, the one that
/// is reused first at the end.
pub ghost struct EntityIds {
    pub next_id: nat,
    pub free_ids: Seq<usize>,
}

impl EntityIds {
    /// No id is free twice, and every free id was issued before.
    pub open spec fn wf(self) -> bool {
        &&& self.free_ids.no_duplicates()
        &&& forall|i: int| 0 <= i < self.free_ids.len() ==> (#[trigger] self.free_ids[i]) < self.next_id
    }

    /// Whether `entity_id` is the id of a live entity.
    pub open spec fn is_live(self, entity_id: usize) -> bool {
        entity_id < self.next_id && !self.free_ids.contains(entity_id)
    }

    /// The number of live entities.
    pub open spec fn count(self) -> int {
        self.next_id - self.free_ids.len()
    }

    /// The id that the next entity gets: the one freed last, or the first
    /// that was never issued.
    pub open spec fn fresh(self) -> nat {
        if self.free_ids.len() > 0 {
            self.free_ids.last() as nat
        } else {
            self.next_id
        }
    }

    /// The allocator after it issued `self.fresh()`.
    pub open spec fn create(self) -> EntityIds {
        if self.free_ids.len() > 0 {
            EntityIds { next_id: self.next_id, free_ids: self.free_ids.drop_last() }
        } else {
            EntityIds { next_id: self.next_id + 1, free_ids: self.free_ids }
        }
    }

    /// The allocator after `entity_id` was given back.
    pub open spec fn remove(self, entity_id: usize) -> EntityIds {
        EntityIds { next_id: self.next_id, free_ids: self.free_ids.push(entity_id) }
    }
}

/// An ordered set of components that an entity gets at its creation.
pub trait ComponentBundle<U>: Sized {
    /// The directory after every component of the bundle was attached to
    /// `entity_id`, in the bundle's order.
    spec fn attached(self, entity_id: usize, storage: StorageView<U>) -> StorageView<U>;

    /// Attaches every component of the bundle to `entity_id`, in the
    /// bundle's order. No other entity's components change.
    fn add_to_entity(self, entity_id: usize, storage: &mut ComponentStorage<U>)
        requires
            old(storage).wf(),
            entity_id < usize::MAX,
        ensures
            final(storage).wf(),
            final(storage)@ == self.attached(entity_id, old(storage)@),
            forall|key: u64, other: usize|
                other != entity_id ==> #[trigger] final(storage)@.cell(key, other) == old(
                    storage,
                )@.cell(key, other),
    ;
}

impl<U, T1: Component<U>> ComponentBundle<U> for (T1,) {
    open spec fn attached(self, entity_id: usize, storage: StorageView<U>) -> StorageView<U> {
        storage.attach(T1::COLUMN, entity_id, self.0.cell())
    }

    fn add_to_entity(self, entity_id: usize, storage: &mut ComponentStorage<U>) {
        storage.add_component(entity_id, self.0);
    }
}

impl<U, T1: Component<U>, T2: Component<U>> ComponentBundle<U> for (T1, T2) {
    open spec fn attached(self, entity_id: usize, storage: StorageView<U>) -> StorageView<U> {
        storage.attach(T1::COLUMN, entity_id, self.0.cell()).attach(
            T2::COLUMN,
            entity_id,
            self.1.cell(),
        )
    }

    fn add_to_entity(self, entity_id: usize, storage: &mut ComponentStorage<U>) {
        storage.add_component(entity_id, self.0);
        storage.add_component(entity_id, self.1);
    }
}

impl<U, T1: Component<U>, T2: Component<U>, T3: Component<U>> ComponentBundle<U> for (T1, T2, T3) {
    open spec fn attached(self, entity_id: usize, storage: StorageView<U>) -> StorageView<U> {
        storage.attach(T1::COLUMN, entity_id, self.0.cell()).attach(
            T2::COLUMN,
            entity_id,
            self.1.cell(),
        ).attach(T3::COLUMN, entity_id, self.2.cell())
    }

    fn add_to_entity(self, entity_id: usize, storage: &mut ComponentStorage<U>) {
        storage.add_component(entity_id, self.0);
        storage.add_component(entity_id, self.1);
        storage.add_component(entity_id, self.2);
    }
}

impl<
    U,
    T1: Component<U>,
    T2: Component<U>,
    T3: Component<U>,
    T4: Component<U>,
> ComponentBundle<U> for (T1, T2, T3, T4) {
    open spec fn attached(self, entity_id: usize, storage: StorageView<U>) -> StorageView<U> {
        storage.attach(T1::COLUMN, entity_id, self.0.cell()).attach(
            T2::COLUMN,
            entity_id,
            self.1.cell(),
        ).attach(T3::COLUMN, entity_id, self.2.cell()).attach(
            T4::COLUMN,
            entity_id,
            self.3.cell(),
        )
    }

    fn add_to_entity(self, entity_id: usize, storage: &mut ComponentStorage<U>) {
        storage.add_component(entity_id, self.0);
        storage.add_component(entity_id, self.1);
        storage.add_component(entity_id, self.2);
        storage.add_component(entity_id, self.3);
    }
}

/// What an entity manager holds: the state of its id allocator and the
/// components of its entities.
pub ghost struct ManagerView<U> {
    pub ids: EntityIds,
    pub components: StorageView<U>,
}

/// Issues and recycles entity ids, and keeps the components of the live
/// entities.
///
/// `live` marks, for every id below `next_id`, whether it is the id of a
/// live entity; `free_ids` holds the other ids, the one to reuse first last.
pub struct EntityManager<U> {
    next_id: usize,
    free_ids: Vec<usize>,
    live: Vec<bool>,
    components: ComponentStorage<U>,
}

impl<U> View for EntityManager<U> {
    type V = ManagerView<U>;

    closed spec fn view(&self) -> ManagerView<U> {
        ManagerView {
            ids: EntityIds { next_id: self.next_id as nat, free_ids: self.free_ids@ },
            components: self.components@,
        }
    }
}

impl<U> EntityManager<U> {
    /// The allocator and the directory are well formed, the marks agree with
    /// the free pool, and only live entities have components.
    pub closed spec fn wf(&self) -> bool {
        &&& self@.ids.wf()
        &&& self.components.wf()
        &&& self.live@.len() == self.next_id
        &&& forall|id: int|
            0 <= id < self.next_id ==> (#[trigger] self.live@[id]) == !self.free_ids@.contains(
                id as usize,
            )
        &&& forall|key: u64, entity_id: usize| #[trigger]
            self.components@.cell(key, entity_id) is Some ==> self@.ids.is_live(entity_id)
    }

    /// A manager without entities, whose directory has the shared capacity
    /// `storage_capacity`.
    pub fn new(storage_capacity: usize) -> (manager: Self)
        ensures
            manager.wf(),
            manager@.ids == (EntityIds { next_id: 0, free_ids: Seq::empty() }),
            manager@.components == (StorageView::<U> {
                capacity: storage_capacity as nat,
                columns: Map::empty(),
            }),
    {
        EntityManager {
            next_id: 0,
            free_ids: Vec::new(),
            live: Vec::new(),
            components: ComponentStorage::new(storage_capacity),
        }
    }

    /// Creates an entity that has the components of `component_bundle`,
    /// attached in the bundle's order, and returns its id: the id that was
    /// freed last, or else the first that was never issued.
    ///
    /// Needs an id to issue: a free one, or one below `usize::MAX`.
    pub fn create_entity<B: ComponentBundle<U>>(&mut self, component_bundle: B) -> (entity_id:
        usize)
        requires
            old(self).wf(),
            old(self)@.ids.free_ids.len() > 0 || old(self)@.ids.next_id < usize::MAX,
        ensures
            final(self).wf(),
            entity_id == old(self)@.ids.fresh(),
            !old(self)@.ids.is_live(entity_id),
            final(self)@.ids.is_live(entity_id),
            final(self)@.ids == old(self)@.ids.create(),
            final(self)@.components == component_bundle.attached(
                entity_id,
                old(self)@.components,
            ),
    {
        let entity_id = self.create_entity_id();
        let ghost issued = *self;
        component_bundle.add_to_entity(entity_id, &mut self.components);
        proof {
            assert forall|key: u64, other: usize| #[trigger]
                self.components@.cell(key, other) is Some implies self@.ids.is_live(other) by {
                if other != entity_id {
                    assert(issued.components@.cell(key, other) is Some);
                }
            }
        }
        entity_id
    }

    /// The component of type `T` that `entity_id` has, if it has one. An id
    /// that is not the id of a live entity has none.
    pub fn get_component<T: Component<U>>(&self, entity_id: usize) -> (component: Option<&T>)
        requires
            self.wf(),
        ensures
            component.is_some() == self@.components.component::<T>(entity_id).is_some(),
            component matches Some(value) ==> self@.components.component::<T>(entity_id) == Some(
                *value,
            ),
            component.is_some() ==> self@.ids.is_live(entity_id),
    {
        proof {
            if self.components@.component::<T>(entity_id).is_some() {
                assert(self.components@.cell(T::COLUMN, entity_id) is Some);
            }
        }
        self.components.get_component::<T>(entity_id)
    }

    /// Gives the live entity `entity_id` the component `component`, in place
    /// of the one of that type which it may have had. For any other id
    /// nothing changes and the id is reported as unknown.
    pub fn add_component<T: Component<U>>(&mut self, entity_id: usize, component: T) -> (result:
        Result<(), EntityError>)
        requires
            old(self).wf(),
        ensures
            final(self).wf(),
            final(self)@.ids == old(self)@.ids,
            old(self)@.ids.is_live(entity_id) ==> result == Ok::<(), EntityError>(())
                && final(self)@.components == old(self)@.components.attach(
                T::COLUMN,
                entity_id,
                component.cell(),
            ),
            !old(self)@.ids.is_live(entity_id) ==> result == Err::<(), EntityError>(
                EntityError::UnknownEntity(entity_id),
            ) && final(self)@ == old(self)@,
    {
        if !self.entity_exists(entity_id) {
            return Err(EntityError::UnknownEntity(entity_id));
        }
        let ghost before = *self;
        self.components.add_component(entity_id, component);
        proof {
            assert forall|key: u64, other: usize| #[trigger]
                self.components@.cell(key, other) is Some implies self@.ids.is_live(other) by {
                if other != entity_id {
                    assert(before.components@.cell(key, other) is Some);
                }
            }
        }
        Ok(())
    }

    /// Whether `entity_id` has a component of type `T`.
    pub fn has_component<T: Component<U>>(&self, entity_id: usize) -> (has: bool)
        requires
            self.wf(),
        ensures
            has == self@.components.component::<T>(entity_id).is_some(),
            has ==> self@.ids.is_live(entity_id),
    {
        proof {
            if self.components@.component::<T>(entity_id).is_some() {
                assert(self.components@.cell(T::COLUMN, entity_id) is Some);
            }
        }
        self.components.has_component::<T>(entity_id)
    }

    /// Removes the live entity `entity_id`: all its components are taken out
    /// and its id becomes the first to be reused. For any other id nothing
    /// changes and the id is reported as unknown.
    pub fn remove_entity(&mut self, entity_id: usize) -> (result: Result<(), EntityError>)
        requires
            old(self).wf(),
        ensures
            final(self).wf(),
            !final(self)@.ids.is_live(entity_id),
            old(self)@.ids.is_live(entity_id) ==> result == Ok::<(), EntityError>(())
                && final(self)@.ids == old(self)@.ids.remove(entity_id) && final(self)@.components
                == old(self)@.components.purge(entity_id),
            !old(self)@.ids.is_live(entity_id) ==> result == Err::<(), EntityError>(
                EntityError::UnknownEntity(entity_id),
            ) && final(self)@ == old(self)@,
    {
        if !self.entity_exists(entity_id) {
            return Err(EntityError::UnknownEntity(entity_id));
        }
        let ghost before = *self;
        self.components.remove_all_components(entity_id);
        self.free_ids.push(entity_id);
        self.live[entity_id] = false;
        proof {
            assert(self.free_ids@.last() == entity_id);
            assert forall|id: int| 0 <= id < self.next_id implies (#[trigger] self.live@[id])
                == !self.free_ids@.contains(id as usize) by {
                if id == entity_id {
                    assert(self.free_ids@.last() == entity_id);
                } else {
                    if before.free_ids@.contains(id as usize) {
                        let i = choose|i: int|
                            0 <= i < before.free_ids@.len() && before.free_ids@[i] == id as usize;
                        assert(self.free_ids@[i] == id as usize);
                    }
                }
            }
            assert forall|key: u64, other: usize| #[trigger]
                self.components@.cell(key, other) is Some implies self@.ids.is_live(other) by {
                assert(before.components@.cell(key, other) is Some);
                assert(other != entity_id);
            }
        }
        Ok(())
    }

    /// Issues an id: the one that was freed last, or else the first that was
    /// never issued.
    fn create_entity_id(&mut self) -> (entity_id: usize)
        requires
            old(self).wf(),
            old(self)@.ids.free_ids.len() > 0 || old(self)@.ids.next_id < usize::MAX,
        ensures
            final(self).wf(),
            entity_id == old(self)@.ids.fresh(),
            entity_id < usize::MAX,
            !old(self)@.ids.is_live(entity_id),
            final(self)@.ids.is_live(entity_id),
            final(self)@.ids == old(self)@.ids.create(),
            final(self).components == old(self).components,
    {
        let ghost before = *self;
        if let Some(free_id) = self.free_ids.pop() {
            self.live[free_id] = true;
            proof {
                assert(before.free_ids@.last() == free_id);
                assert forall|id: int| 0 <= id < self.next_id implies (#[trigger] self.live@[id])
                    == !self.free_ids@.contains(id as usize) by {
                    if id != free_id && before.free_ids@.contains(id as usize) {
                        let i = choose|i: int|
                            0 <= i < before.free_ids@.len() && before.free_ids@[i] == id as usize;
                        assert(self.free_ids@[i] == id as usize);
                    }
                }
            }
            free_id
        } else {
            let id = self.next_id;
            self.next_id += 1;
            self.live.push(true);
            id
        }
    }

    /// The number of live entities.
    pub fn get_entity_count(&self) -> (count: usize)
        requires
            self.wf(),
        ensures
            count == self@.ids.count(),
    {
        proof {
            lemma_free_ids_bounded(self@.ids);
        }
        self.next_id - self.free_ids.len()
    }

    /// Whether `entity_id` is the id of a live entity.
    pub fn entity_exists(&self, entity_id: usize) -> (exists: bool)
        requires
            self.wf(),
        ensures
            exists == self@.ids.is_live(entity_id),
    {
        entity_id < self.next_id && self.live[entity_id]
    }
}

/// A well-formed allocator has no more free ids than it ever issued.
pub proof fn lemma_free_ids_bounded(ids: EntityIds)
    requires
        ids.wf(),
    ensures
        ids.free_ids.len() <= ids.next_id,
        ids.count() >= 0,
{
    let ints = ids.free_ids.map_values(|id: usize| id as int);
    let range = vstd::set_lib::set_int_range(0, ids.next_id as int);
    assert(ints.no_duplicates());
    ints.unique_seq_to_set();
    vstd::set_lib::lemma_int_range(0, ids.next_id as int);
    assert forall|id: int| ints.to_set().contains(id) implies range.contains(id) by {
        let i = choose|i: int| 0 <= i < ints.len() && ints[i] == id;
        assert(ids.free_ids[i] < ids.next_id);
    }
    vstd::set_lib::lemma_len_subset(ints.to_set(), range);
}

impl<U> Default for EntityManager<U> {
    /// A manager without entities, whose directory has the shared capacity
    /// 1000.
    fn default() -> (manager: Self)
        ensures
            manager.wf(),
            manager@.ids == (EntityIds { next_id: 0, free_ids: Seq::empty() }),
            manager@.components == (StorageView::<U> { capacity: 1000, columns: Map::empty() }),
    {
        EntityManager {
            next_id: 0,
            free_ids: Vec::new(),
            live: Vec::new(),
            components: ComponentStorage::default(),
        }
    }
}

/// One request to an id allocator.
pub ghost enum EntityOp {
    /// Create an entity.
    Create,
    /// Remove the entity with this id; refused unless that entity is live.
    Remove(usize),
}

impl EntityIds {
    /// The allocator after one request: a removal of an id that is not live
    /// changes nothing.
    pub open spec fn apply(self, op: EntityOp) -> EntityIds {
        match op {
            EntityOp::Create => self.create(),
            EntityOp::Remove(entity_id) => if self.is_live(entity_id) {
                self.remove(entity_id)
            } else {
                self
            },
        }
    }

    /// The allocator after the requests `ops`, in their order.
    pub open spec fn run(self, ops: Seq<EntityOp>) -> EntityIds
        decreases ops.len(),
    {
        if ops.len() == 0 {
            self
        } else {
            self.run(ops.drop_last()).apply(ops.last())
        }
    }

    /// How many of the requests `ops` create an entity.
    pub open spec fn creations(ops: Seq<EntityOp>) -> nat
        decreases ops.len(),
    {
        if ops.len() == 0 {
            0
        } else {
            Self::creations(ops.drop_last()) + if ops.last() is Create {
                1nat
            } else {
                0nat
            }
        }
    }

    /// How many of the requests `ops`, made in their order, remove an entity
    /// that is live when its removal is asked for.
    pub open spec fn removals(self, ops: Seq<EntityOp>) -> nat
        decreases ops.len(),
    {
        if ops.len() == 0 {
            0
        } else {
            self.removals(ops.drop_last()) + match ops.last() {
                EntityOp::Remove(entity_id) => if self.run(ops.drop_last()).is_live(entity_id) {
                    1nat
                } else {
                    0nat
                },
                EntityOp::Create => 0nat,
            }
        }
    }
}

/// A request leaves a well-formed allocator well formed. A creation issues
/// an id that was not live and is live afterwards, and adds one to the
/// number of live entities; the removal of a live entity takes one off and
/// ends the life of that id alone; a refused removal changes nothing.
pub proof fn lemma_apply(ids: EntityIds, op: EntityOp)
    requires
        ids.wf(),
    ensures
        ids.apply(op).wf(),
        op is Create ==> {
            &&& ids.apply(op).count() == ids.count() + 1
            &&& forall|entity_id: usize|
                entity_id == ids.fresh() ==> !ids.is_live(entity_id) && ids.apply(op).is_live(
                    entity_id,
                )
            &&& forall|entity_id: usize|
                entity_id != ids.fresh() ==> ids.apply(op).is_live(entity_id) == ids.is_live(
                    entity_id,
                )
        },
        op matches EntityOp::Remove(entity_id) ==> {
            &&& ids.is_live(entity_id) ==> ids.apply(op).count() == ids.count() - 1
            &&& !ids.is_live(entity_id) ==> ids.apply(op) == ids
            &&& !ids.apply(op).is_live(entity_id)
            &&& forall|other: usize|
                other != entity_id ==> ids.apply(op).is_live(other) == ids.is_live(other)
        },
{
    match op {
        EntityOp::Create => {
            if ids.free_ids.len() > 0 {
                let last = ids.free_ids.len() - 1;
                let rest = ids.free_ids.drop_last();
                assert(ids.free_ids[last] == ids.free_ids.last());
                assert(ids.free_ids.contains(ids.free_ids.last()));
                assert forall|i: int| 0 <= i < last implies rest[i] != ids.free_ids.last() by {
                    assert(rest[i] == ids.free_ids[i]);
                }
                assert(!rest.contains(ids.free_ids.last()));
                assert forall|entity_id: usize|
                    entity_id != ids.fresh() implies rest.contains(entity_id)
                    == ids.free_ids.contains(entity_id) by {
                    if ids.free_ids.contains(entity_id) {
                        let i = choose|i: int|
                            0 <= i < ids.free_ids.len() && ids.free_ids[i] == entity_id;
                        assert(rest[i] == entity_id);
                    }
                    if rest.contains(entity_id) {
                        let i = choose|i: int| 0 <= i < rest.len() && rest[i] == entity_id;
                        assert(ids.free_ids[i] == entity_id);
                    }
                }
            } else {
                assert forall|entity_id: usize| entity_id == ids.fresh() implies !ids.is_live(
                    entity_id,
                ) && ids.apply(op).is_live(entity_id) by {
                    if ids.free_ids.contains(entity_id) {
                        let i = choose|i: int|
                            0 <= i < ids.free_ids.len() && ids.free_ids[i] == entity_id;
                        assert(ids.free_ids[i] < ids.next_id);
                    }
                }
            }
        },
        EntityOp::Remove(entity_id) => {
            if ids.is_live(entity_id) {
                let pool = ids.remove(entity_id).free_ids;
                assert(pool.last() == entity_id);
                assert(pool.contains(entity_id));
                assert forall|other: usize| other != entity_id implies pool.contains(other)
                    == ids.free_ids.contains(other) by {
                    if ids.free_ids.contains(other) {
                        let i = choose|i: int|
                            0 <= i < ids.free_ids.len() && ids.free_ids[i] == other;
                        assert(pool[i] == other);
                    }
                    if pool.contains(other) {
                        let i = choose|i: int| 0 <= i < pool.len() && pool[i] == other;
                        assert(ids.free_ids[i] == other);
                    }
                }
            }
        },
    }
}

/// After any requests to a well-formed allocator, the number of live
/// entities is what it was, plus the creations, minus the removals of
/// entities that were live when their removal was asked for.
pub proof fn lemma_count_after_run(ids: EntityIds, ops: Seq<EntityOp>)
    requires
        ids.wf(),
    ensures
        ids.run(ops).wf(),
        ids.run(ops).count() == ids.count() + EntityIds::creations(ops) - ids.removals(ops),
    decreases ops.len(),
{
    if ops.len() > 0 {
        lemma_count_after_run(ids, ops.drop_last());
        lemma_apply(ids.run(ops.drop_last()), ops.last());
    }
}

/// Ids are reused last in, first out: the id of an entity that was just
/// removed is the next to be issued, before any id that was never issued,
/// and issuing it brings the allocator back to where it was.
pub proof fn lemma_reuse_is_lifo(ids: EntityIds, entity_id: usize)
    requires
        ids.wf(),
        ids.is_live(entity_id),
    ensures
        ids.remove(entity_id).fresh() == entity_id,
        ids.remove(entity_id).create() == ids,
{
    assert(ids.remove(entity_id).free_ids.drop_last() =~= ids.free_ids);
}

} // verus!
