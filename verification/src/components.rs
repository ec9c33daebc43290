use crate::slots::{Select, SlotList};
use vstd::prelude::*;

verus! {

/// What can be kept in a set of components: any type that borrows nothing.
pub trait Component: 'static {

}

impl<T: 'static> Component for T {

}

/// The components of one entity: at most one of each type of the list `S`.
pub struct Components<S> {
    store: S,
}

impl<S> Components<S> {
    /// The slots of the set.
    pub closed spec fn slots(&self) -> S {
        self.store
    }

    /// The component of type `C`, where the set has one.
    pub open spec fn value<C, I>(&self) -> Option<C> where S: Select<C, I> {
        self.slots().slot()
    }

    /// Makes `component` the component of its type, and hands back the one
    /// that it replaces. No component of another type changes.
    pub fn set<C: Component, I>(&mut self, component: C) -> (previous: Option<C>) where
        S: Select<C, I>,

        ensures
            previous == old(self).value::<C, I>(),
            final(self).value::<C, I>() == Some(component),
            final(self).slots().same_elsewhere(&old(self).slots()),
    {
        let slot = self.store.slot_mut();
        let previous = slot.take();
        *slot = Some(component);
        previous
    }
}

impl<S: SlotList> Default for Components<S> {
    /// A set without components.
    fn default() -> (components: Components<S>)
        ensures
            components.slots().filled() == 0,
    {
        Components { store: S::blank() }
    }
}

} // verus!
