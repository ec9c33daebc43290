use crate::slots::{Select, SlotList};
use crate::{Component, Entity};
use vstd::prelude::*;

verus! {

/// A table with at most one value of each type of the list `S`.
pub struct ComponentMap<S> {
    store: S,
}

impl<S> ComponentMap<S> {
    /// The slots of the table.
    pub closed spec fn slots(&self) -> S {
        self.store
    }

    /// The value of type `C`, where the table has one.
    pub open spec fn value<C, I>(&self) -> Option<C> where S: Select<C, I> {
        self.slots().slot()
    }

    /// The values of all types but `C` are in `self` what they are in `other`.
    pub open spec fn same_elsewhere<C, I>(&self, other: &Self) -> bool where S: Select<C, I> {
        self.slots().same_elsewhere(&other.slots())
    }

    /// Replacing the value of one type changes the number of values by one
    /// where the table had none of that type, and not at all where it had one.
    pub proof fn lemma_len_after_set<C, I>(&self, before: &Self) where S: Select<C, I>
        requires
            self.same_elsewhere::<C, I>(before),
            self.value::<C, I>() is Some,
        ensures
            self.slots().filled() == before.slots().filled() + if before.value::<C, I>() is Some {
                0int
            } else {
                1int
            },
    {
        self.slots().lemma_filled_elsewhere(&before.slots());
    }

    /// A table without values.
    pub fn new() -> (map: ComponentMap<S>) where S: SlotList
        ensures
            map.slots().filled() == 0,
    {
        ComponentMap { store: S::blank() }
    }

    /// Makes `component` the value of its type, and hands back the value that
    /// it replaces. The entity plays no part.
    pub fn set<C: Component, I>(&mut self, entity: Entity, component: C) -> (previous: Option<
        C,
    >) where S: Select<C, I>
        ensures
            previous == old(self).value::<C, I>(),
            final(self).value::<C, I>() == Some(component),
            final(self).same_elsewhere::<C, I>(old(self)),
    {
        let slot = self.store.slot_mut();
        let previous = slot.take();
        *slot = Some(component);
        previous
    }

    /// Read access to the value of type `C`.
    pub fn borrow<C: Component, I>(&self) -> (found: Option<&C>) where S: Select<C, I>
        ensures
            match found {
                Some(v) => self.value::<C, I>() == Some(*v),
                None => self.value::<C, I>() is None,
            },
    {
        self.store.slot_ref().as_ref()
    }

    /// Exclusive access to the value of type `C`. Whatever the caller writes
    /// through the reference is what the table holds afterwards.
    pub fn borrow_mut<C: Component, I>(&mut self) -> (found: Option<&mut C>) where
        S: Select<C, I>,

        ensures
            match found {
                Some(v) => old(self).value::<C, I>() == Some(*v) && final(self).value::<C, I>()
                    == Some(*final(v)),
                None => old(self).value::<C, I>() is None && final(self).value::<C, I>() is None,
            },
            final(self).same_elsewhere::<C, I>(old(self)),
    {
        self.store.slot_mut().as_mut()
    }

    /// A copy of the value of type `C`.
    pub fn clone<C: Component + Clone, I>(&self) -> (copy: Option<C>) where S: Select<C, I>
        ensures
            match copy {
                Some(c) => self.value::<C, I>() is Some && cloned(self.value::<C, I>().unwrap(), c),
                None => self.value::<C, I>() is None,
            },
    {
        match self.store.slot_ref() {
            Some(v) => Some(v.clone()),
            None => None,
        }
    }

    /// Whether the table has a value of type `C`.
    pub fn contains<C: Component, I>(&self) -> (found: bool) where S: Select<C, I>
        ensures
            found == self.value::<C, I>() is Some,
    {
        self.store.slot_ref().is_some()
    }

    /// The number of values in the table.
    pub fn len(&self) -> (n: usize) where S: SlotList
        requires
            S::width() <= usize::MAX,
        ensures
            n == self.slots().filled(),
    {
        self.store.count_filled()
    }
}

impl<S: SlotList> Default for ComponentMap<S> {
    /// A table without values.
    fn default() -> (map: ComponentMap<S>)
        ensures
            map.slots().filled() == 0,
    {
        ComponentMap { store: S::blank() }
    }
}

} // verus!
