use std::collections::hash_map::Entry;
use std::collections::HashMap;
use vstd::prelude::*;
use vstd::std_specs::iter::IteratorSpec;

verus! {

broadcast use vstd::std_specs::hash::group_hash_axioms;

/// The owning container of all components of one type: at most one value per
/// entity identifier.
pub struct ComponentStore<T> {
    id: usize,
    store: HashMap<u32, T>,
}

impl<T> View for ComponentStore<T> {
    type V = Map<u32, T>;

    /// The components held, by entity identifier.
    closed spec fn view(&self) -> Map<u32, T> {
        self.store@
    }
}

impl<T> ComponentStore<T> {
    /// The label the store was created with.
    pub closed spec fn label(&self) -> usize {
        self.id
    }

    /// `entries` names every component held, with the identifier of its entity,
    /// and names no entity twice.
    pub open spec fn lists(&self, entries: Seq<(u32, &T)>) -> bool {
        &&& entries.map_values(|e: (u32, &T)| e.0).no_duplicates()
        &&& entries.map_values(|e: (u32, &T)| e.0).to_set() == self@.dom()
        &&& forall|i: int|
            0 <= i < entries.len() ==> *(#[trigger] entries[i]).1 == self@[entries[i].0]
    }

    /// The view has finitely many entries, so its length is meaningful.
    pub proof fn lemma_view_finite(&self)
        ensures
            self@.dom().finite(),
    {
    }

    /// A component that was just set is the one that a lookup finds: where
    /// `after` is `self` once `value` was set for `entity_id`, a lookup of
    /// `entity_id` in `after` finds `value`.
    pub proof fn lemma_set_then_borrow(&self, after: &Self, entity_id: u32, value: T)
        requires
            after@ == self@.insert(entity_id, value),
        ensures
            after@.get(entity_id) == Some(value),
    {
    }

    /// A component that was removed is not found again: where `after` is `self`
    /// once the component of `entity_id` was removed, a lookup of `entity_id`
    /// in `after` finds nothing.
    pub proof fn lemma_remove_then_borrow(&self, after: &Self, entity_id: u32)
        requires
            after@ == self@.remove(entity_id),
        ensures
            after@.get(entity_id) is None,
    {
    }

    /// Of two values set in turn for one entity, the first is the previous
    /// value that the second replaces, and the second is the one that stays.
    pub proof fn lemma_set_twice(
        &self,
        between: &Self,
        after: &Self,
        entity_id: u32,
        first: T,
        second: T,
    )
        requires
            between@ == self@.insert(entity_id, first),
            after@ == between@.insert(entity_id, second),
        ensures
            between@.get(entity_id) == Some(first),
            after@.get(entity_id) == Some(second),
            after@ == self@.insert(entity_id, second),
    {
        assert(after@ =~= self@.insert(entity_id, second));
    }

    /// An empty store carrying the label `id`.
    pub fn new(id: usize) -> (s: ComponentStore<T>)
        ensures
            s@ == Map::<u32, T>::empty(),
            s.label() == id,
    {
        ComponentStore { id: id, store: HashMap::new() }
    }

    /// The label the store was created with.
    pub fn get_id(&self) -> (id: usize)
        ensures
            id == self.label(),
    {
        self.id
    }

    /// Attaches `entity` to `entity_id`, and hands back the value it replaces.
    pub fn set(&mut self, entity_id: u32, entity: T) -> (previous: Option<T>)
        ensures
            final(self)@ == old(self)@.insert(entity_id, entity),
            final(self).label() == old(self).label(),
            previous == old(self)@.get(entity_id),
    {
        self.store.insert(entity_id, entity)
    }

    /// Detaches and returns the component of `entity_id`, if it has one.
    pub fn remove(&mut self, entity_id: u32) -> (previous: Option<T>)
        ensures
            final(self)@ == old(self)@.remove(entity_id),
            final(self).label() == old(self).label(),
            previous == old(self)@.get(entity_id),
    {
        self.store.remove(&entity_id)
    }

    /// Read access to the component of `entity_id`.
    pub fn borrow(&self, entity_id: u32) -> (found: Option<&T>)
        ensures
            match found {
                Some(v) => self@.contains_key(entity_id) && *v == self@[entity_id],
                None => !self@.contains_key(entity_id),
            },
    {
        self.store.get(&entity_id)
    }

    /// Exclusive access to the component of `entity_id`. Whatever the caller
    /// writes through the reference is what the store holds afterwards.
    pub fn borrow_mut(&mut self, entity_id: u32) -> (found: Option<&mut T>)
        ensures
            final(self).label() == old(self).label(),
            match found {
                Some(v) => old(self)@.contains_key(entity_id) && *v == old(self)@[entity_id]
                    && final(self)@ == old(self)@.insert(entity_id, *final(v)),
                None => !old(self)@.contains_key(entity_id) && final(self)@ == old(self)@,
            },
    {
        match self.store.entry(entity_id) {
            Entry::Occupied(slot) => Some(slot.into_mut()),
            Entry::Vacant(_) => None,
        }
    }

    /// The identifiers of the entities that have a component here, each once,
    /// in no particular order.
    pub fn ids(&self) -> (ids: Vec<u32>)
        ensures
            ids@.no_duplicates(),
            ids@.to_set() == self@.dom(),
            ids@.len() == self@.len(),
    {
        let mut out: Vec<u32> = Vec::new();
        let ghost all = self.store.keys().remaining();
        for k in it: self.store.keys()
            invariant
                it.seq() == all,
                all == self.store.keys().remaining(),
                out@.len() == it.index(),
                forall|j: int| 0 <= j < out@.len() ==> out@[j] == *all[j],
        {
            out.push(*k);
        }
        proof {
            assert(out@ =~= all.unref());
            assert forall|i: int, j: int|
                0 <= i < out@.len() && 0 <= j < out@.len() && i != j implies out@[i]
                != out@[j] by {
                assert(all[i] != all[j]);
            }
        }
        out
    }

    /// Every component with the identifier of its entity, each entity once, in
    /// no particular order.
    pub fn iterate(&self) -> (entries: Vec<(u32, &T)>)
        ensures
            self.lists(entries@),
    {
        let ids = self.ids();
        let mut out: Vec<(u32, &T)> = Vec::new();
        let mut i: usize = 0;
        while i < ids.len()
            invariant
                i <= ids.len(),
                ids@.to_set() == self@.dom(),
                out@.len() == i,
                forall|j: int|
                    0 <= j < i ==> (#[trigger] out@[j]).0 == ids@[j] && *out@[j].1
                        == self@[ids@[j]],
            decreases ids.len() - i,
        {
            let id: u32 = ids[i];
            assert(ids@.to_set().contains(ids@[i as int]));
            match self.store.get(&id) {
                Some(v) => {
                    out.push((id, v));
                },
                None => {
                    assert(false);
                },
            }
            i += 1;
        }
        proof {
            assert(out@.map_values(|e: (u32, &T)| e.0) =~= ids@);
        }
        out
    }

    /// Replaces every component by what `f` makes of it and of the identifier of
    /// its entity. No component is added or removed.
    pub fn iterate_mut<F: Fn(u32, T) -> T>(&mut self, f: F)
        requires
            forall|id: u32|
                old(self)@.contains_key(id) ==> #[trigger] f.requires((id, old(self)@[id])),
        ensures
            final(self).label() == old(self).label(),
            final(self)@.dom() == old(self)@.dom(),
            forall|id: u32|
                #![trigger final(self)@[id]]
                old(self)@.contains_key(id) ==> f.ensures((id, old(self)@[id]), final(self)@[id]),
    {
        let ids = self.ids();
        let mut i: usize = 0;
        while i < ids.len()
            invariant
                i <= ids.len(),
                ids@.no_duplicates(),
                ids@.to_set() == old(self)@.dom(),
                self.id == old(self).id,
                self@.dom() == old(self)@.dom(),
                forall|id: u32|
                    old(self)@.contains_key(id) ==> #[trigger] f.requires((id, old(self)@[id])),
                forall|j: int|
                    0 <= j < i ==> f.ensures(
                        (#[trigger] ids@[j], old(self)@[ids@[j]]),
                        self@[ids@[j]],
                    ),
                forall|j: int|
                    i <= j < ids.len() ==> self@[#[trigger] ids@[j]] == old(self)@[ids@[j]],
            decreases ids.len() - i,
        {
            let id: u32 = ids[i];
            assert(ids@.to_set().contains(ids@[i as int]));
            let ghost before = self@;
            match self.store.remove(&id) {
                Some(v) => {
                    let w = f(id, v);
                    self.store.insert(id, w);
                    assert(self@.dom() =~= before.dom());
                },
                None => {
                    assert(false);
                },
            }
            i += 1;
        }
        proof {
            assert forall|id: u32| old(self)@.contains_key(id) implies f.ensures(
                (id, old(self)@[id]),
                #[trigger] self@[id],
            ) by {
                assert(ids@.to_set().contains(id));
                let j = choose|j: int| 0 <= j < ids@.len() && ids@[j] == id;
                assert(ids@[j] == id);
            }
        }
    }

    /// The number of components held.
    pub fn len(&self) -> (n: usize)
        ensures
            n == self@.len(),
    {
        self.store.len()
    }
}

} // verus!
