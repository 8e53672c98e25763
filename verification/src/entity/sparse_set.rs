//! A sparse set: the components of one column, packed densely and found
//! through an index that is addressed by entity id.

use vstd::prelude::*;

verus! {

/// The components of one column.
///
/// `dense` holds the live components without holes, `entities` holds for each
/// of them the entity that owns it, and `sparse` maps an entity id to the
/// position of its component in `dense`, if it has one.
pub struct SparseSet<T> {
    sparse: Vec<Option<usize>>,
    dense: Vec<T>,
    entities: Vec<usize>,
}

impl<T> View for SparseSet<T> {
    type V = Map<usize, T>;

    /// The component of each entity that has one.
    open spec fn view(&self) -> Map<usize, T> {
        Map::new(
            |e: usize| self.contains(e),
            |e: usize| self.values()[self.index()[e as int].unwrap() as int],
        )
    }
}

impl<T> SparseSet<T> {
    /// The sparse index: for each addressable entity id the dense position of
    /// its component, or `None`.
    pub closed spec fn index(&self) -> Seq<Option<usize>> {
        self.sparse@
    }

    /// The live components in dense order.
    pub closed spec fn values(&self) -> Seq<T> {
        self.dense@
    }

    /// The owning entity of each live component, in dense order.
    pub closed spec fn owners(&self) -> Seq<usize> {
        self.entities@
    }

    /// The number of entity ids that the sparse index can address.
    pub open spec fn capacity(&self) -> nat {
        self.index().len()
    }

    /// Whether `entity_id` has a component in this set.
    pub open spec fn contains(&self, entity_id: usize) -> bool {
        entity_id < self.index().len() && self.index()[entity_id as int] is Some
    }

    /// The dense arrays are parallel, every owner is indexed at its own
    /// position, and every index entry points at a component of that entity.
    pub open spec fn wf(&self) -> bool {
        &&& self.values().len() == self.owners().len()
        &&& forall|i: int|
            0 <= i < self.owners().len() ==> {
                &&& (#[trigger] self.owners()[i]) < self.index().len()
                &&& self.index()[self.owners()[i] as int] matches Some(position)
                &&& position == i
            }
        &&& forall|e: int|
            0 <= e < self.index().len() ==> match #[trigger] self.index()[e] {
                Some(i) => i < self.owners().len() && self.owners()[i as int] == e,
                None => true,
            }
    }

    /// An empty set that can address the entity ids below `capacity`.
    pub fn new(capacity: usize) -> (set: Self)
        ensures
            set.wf(),
            set.capacity() == capacity,
            set.index() == Seq::new(capacity as nat, |e: int| None::<usize>),
            set.values() == Seq::<T>::empty(),
            set.owners() == Seq::<usize>::empty(),
            set@ == Map::<usize, T>::empty(),
    {
        let sparse: Vec<Option<usize>> = vec![None; capacity];
        assert(sparse@ =~= Seq::new(capacity as nat, |e: int| None::<usize>));
        let set = SparseSet { sparse, dense: Vec::new(), entities: Vec::new() };
        assert(set@ =~= Map::<usize, T>::empty());
        set
    }

    /// Grows the sparse index so that it addresses the entity ids below
    /// `new_size`. The index never shrinks, and no component is touched.
    pub fn resize(&mut self, new_size: usize)
        requires
            old(self).wf(),
        ensures
            final(self).wf(),
            final(self).capacity() == if new_size > old(self).capacity() {
                new_size as nat
            } else {
                old(self).capacity()
            },
            final(self).index() == old(self).index() + Seq::new(
                (final(self).capacity() - old(self).capacity()) as nat,
                |e: int| None::<usize>,
            ),
            final(self).values() == old(self).values(),
            final(self).owners() == old(self).owners(),
            final(self)@ == old(self)@,
    {
        let ghost before = *self;
        if new_size > self.sparse.len() {
            self.sparse.resize(new_size, None);
            assert(self.sparse@ =~= before.sparse@ + Seq::new(
                (new_size - before.sparse@.len()) as nat,
                |e: int| None::<usize>,
            ));
        } else {
            assert(self.sparse@ =~= before.sparse@ + Seq::new(0, |e: int| None::<usize>));
        }
        assert(self@ =~= before@);
    }

    /// Gives `entity_id` the component `component`.
    ///
    /// The entity must be addressable and must not have a component in this
    /// set yet.
    pub fn add(&mut self, entity_id: usize, component: T)
        requires
            old(self).wf(),
            entity_id < old(self).capacity(),
            !old(self).contains(entity_id),
        ensures
            final(self).wf(),
            final(self).capacity() == old(self).capacity(),
            final(self).index() == old(self).index().update(
                entity_id as int,
                Some(old(self).values().len() as usize),
            ),
            final(self).values() == old(self).values().push(component),
            final(self).owners() == old(self).owners().push(entity_id),
            final(self)@ == old(self)@.insert(entity_id, component),
    {
        let ghost before = *self;
        self.dense.push(component);
        self.entities.push(entity_id);
        let index = self.dense.len() - 1;
        self.sparse[entity_id] = Some(index);
        assert(self@ =~= before@.insert(entity_id, component));
    }

    /// Takes the component of `entity_id` out of the set, if it has one.
    ///
    /// The last component in dense order moves into the freed position, so
    /// the dense arrays stay packed; every other component keeps its place.
    pub fn remove(&mut self, entity_id: usize)
        requires
            old(self).wf(),
        ensures
            final(self).wf(),
            final(self).capacity() == old(self).capacity(),
            final(self)@ == old(self)@.remove(entity_id),
            !old(self).contains(entity_id) ==> {
                &&& final(self).index() == old(self).index()
                &&& final(self).values() == old(self).values()
                &&& final(self).owners() == old(self).owners()
            },
            old(self).contains(entity_id) ==> {
                let freed = old(self).index()[entity_id as int].unwrap() as int;
                let last_owner = old(self).owners().last() as int;
                &&& final(self).values() == old(self).values().update(
                    freed,
                    old(self).values().last(),
                ).drop_last()
                &&& final(self).owners() == old(self).owners().update(
                    freed,
                    old(self).owners().last(),
                ).drop_last()
                &&& final(self).index() == old(self).index().update(
                    last_owner,
                    Some(freed as usize),
                ).update(entity_id as int, None)
            },
    {
        let ghost before = *self;
        if let Some(index) = self.get_component_dense_index(entity_id) {
            self.dense.swap_remove(index);
            let last_entity_id = self.entities[self.entities.len() - 1];
            self.entities.swap_remove(index);
            if index < self.entities.len() {
                self.sparse[last_entity_id] = Some(index);
            }
            self.sparse[entity_id] = None;
            assert(self.sparse@ =~= before.sparse@.update(
                last_entity_id as int,
                Some(index),
            ).update(entity_id as int, None));
            assert(self@ =~= before@.remove(entity_id));
        } else {
            assert(self@ =~= before@.remove(entity_id));
        }
    }

    /// The component of `entity_id`, if it has one in this set.
    pub fn get_component(&self, entity_id: usize) -> (component: Option<&T>)
        requires
            self.wf(),
        ensures
            component == if self@.contains_key(entity_id) {
                Some(&self@[entity_id])
            } else {
                None
            },
    {
        match self.get_component_dense_index(entity_id) {
            Some(index) => Some(&self.dense[index]),
            None => None,
        }
    }

    /// The dense position of the component of `entity_id`, if it has one.
    fn get_component_dense_index(&self, entity_id: usize) -> (index: Option<usize>)
        requires
            self.wf(),
        ensures
            index == if self.contains(entity_id) {
                self.index()[entity_id as int]
            } else {
                None
            },
            index matches Some(i) ==> i < self.values().len() && self.owners()[i as int]
                == entity_id,
    {
        if entity_id < self.sparse.len() {
            self.sparse[entity_id]
        } else {
            None
        }
    }

    /// The live components in dense order.
    pub fn dense(&self) -> (dense: &Vec<T>)
        ensures
            dense@ == self.values(),
    {
        &self.dense
    }

    /// The owning entity of each live component, in dense order.
    pub fn entities(&self) -> (entities: &Vec<usize>)
        ensures
            entities@ == self.owners(),
    {
        &self.entities
    }

    /// The sparse index.
    pub fn sparse(&self) -> (sparse: &Vec<Option<usize>>)
        ensures
            sparse@ == self.index(),
    {
        &self.sparse
    }

    /// The number of entity ids that the sparse index can address.
    pub fn get_sparse_array_size(&self) -> (size: usize)
        ensures
            size == self.capacity(),
    {
        self.sparse.len()
    }
}

/// Once the component of `entity_id` is taken out, that entity has none, and
/// every other entity has exactly the component that it had.
pub proof fn lemma_remove_keeps_others<T>(set: SparseSet<T>, entity_id: usize, other: usize)
    requires
        other != entity_id,
    ensures
        !set@.remove(entity_id).contains_key(entity_id),
        set@.remove(entity_id).contains_key(other) == set@.contains_key(other),
        set@.contains_key(other) ==> set@.remove(entity_id)[other] == set@[other],
{
}

/// In a well-formed set the dense arrays hold exactly the components of the
/// view: each owner has the component at its own position, only owners have
/// components, no entity owns two, and so there are as many components as
/// dense positions.
pub proof fn lemma_dense_holds_view<T>(set: SparseSet<T>)
    requires
        set.wf(),
    ensures
        forall|i: int|
            0 <= i < set.owners().len() ==> set@.contains_key(#[trigger] set.owners()[i])
                && set@[set.owners()[i]] == set.values()[i],
        set@.dom() == set.owners().to_set(),
        set.owners().no_duplicates(),
        set@.dom().finite(),
        set@.dom().len() == set.values().len(),
{
    assert forall|i: int| 0 <= i < set.owners().len() implies set@.contains_key(
        #[trigger] set.owners()[i],
    ) && set@[set.owners()[i]] == set.values()[i] by {
        let e = set.owners()[i];
        assert(set.index()[e as int].unwrap() == i);
        assert(set.contains(e));
    }
    assert forall|i: int, j: int|
        0 <= i < set.owners().len() && 0 <= j < set.owners().len() && i != j implies set.owners()[i]
        != set.owners()[j] by {
        assert(set.index()[set.owners()[i] as int].unwrap() == i);
        assert(set.index()[set.owners()[j] as int].unwrap() == j);
    }
    assert forall|e: usize| set@.dom().contains(e) implies set.owners().to_set().contains(e) by {
        let i = set.index()[e as int].unwrap() as int;
        assert(set.owners()[i] == e);
    }
    assert(set@.dom() =~= set.owners().to_set());
    set.owners().unique_seq_to_set();
}

} // verus!
