use std::collections::hash_map::Entry;
use std::collections::HashMap;
use vstd::prelude::*;

verus! {

broadcast use vstd::std_specs::hash::group_hash_axioms;

/// A plain table of the values of one component type, by entity identifier.
///
/// Unlike a component store it hands back nothing on replacement or removal,
/// and it gives access to a value only where there is one.
pub struct Component<T> {
    id: u32,
    store: HashMap<u32, T>,
}

impl<T> View for Component<T> {
    type V = Map<u32, T>;

    /// The values held, by entity identifier.
    closed spec fn view(&self) -> Map<u32, T> {
        self.store@
    }
}

impl<T> Component<T> {
    /// The identifier the table was created with.
    pub closed spec fn label(&self) -> u32 {
        self.id
    }

    /// An empty table with the identifier `id`.
    pub fn new(id: u32) -> (c: Component<T>)
        ensures
            c@ == Map::<u32, T>::empty(),
            c.label() == id,
    {
        Component { id: id, store: HashMap::new() }
    }

    /// The identifier the table was created with.
    pub fn get_id(&self) -> (id: u32)
        ensures
            id == self.label(),
    {
        self.id
    }

    /// Gives entity `entity_id` the value `entity`, in place of any it had.
    pub fn add(&mut self, entity_id: u32, entity: T)
        ensures
            final(self)@ == old(self)@.insert(entity_id, entity),
            final(self).label() == old(self).label(),
    {
        self.store.insert(entity_id, entity);
    }

    /// Exclusive access to the value of an entity that has one.
    pub fn get(&mut self, entity_id: u32) -> (value: &mut T)
        requires
            old(self)@.contains_key(entity_id),
        ensures
            *value == old(self)@[entity_id],
            final(self)@ == old(self)@.insert(entity_id, *final(value)),
            final(self).label() == old(self).label(),
    {
        match self.store.entry(entity_id) {
            Entry::Occupied(slot) => slot.into_mut(),
            Entry::Vacant(_) => vstd::pervasive::unreached(),
        }
    }

    /// Takes the value of entity `entity_id` away, if it has one.
    pub fn remove(&mut self, entity_id: u32)
        ensures
            final(self)@ == old(self)@.remove(entity_id),
            final(self).label() == old(self).label(),
    {
        self.store.remove(&entity_id);
    }

    /// The number of entities that have a value.
    pub fn count(&self) -> (n: usize)
        ensures
            n == self@.len(),
    {
        self.store.len()
    }
}

} // verus!
