use crate::component_store::ComponentStore;
use crate::slots::{End, First, Next, Select, Slot, SlotList};
use vstd::prelude::*;

verus! {

/// What removing the components of entity `id` makes of one slot: a vacant
/// slot stays vacant, a store loses the component of `id`, and a store in
/// which nothing is left is dropped.
pub open spec fn slot_swept<C>(
    after: Option<ComponentStore<C>>,
    before: Option<ComponentStore<C>>,
    id: u32,
) -> bool {
    match before {
        None => after is None,
        Some(b) => if b@.remove(id).len() == 0 {
            after is None
        } else {
            match after {
                Some(a) => a@ == b@.remove(id) && a.label() == b.label(),
                None => false,
            }
        },
    }
}

/// A list of slots that hold component stores: what is done to all of them at once.
pub trait StoreList: SlotList {
    /// `self` is `before` with the components of entity `id` removed from every
    /// store, and the stores that this left empty dropped.
    spec fn swept(&self, before: &Self, id: u32) -> bool;

    /// Removes the components of entity `id` from every store.
    fn sweep(&mut self, id: u32)
        ensures
            final(self).swept(old(self), id),
    ;
}

impl StoreList for End {
    open spec fn swept(&self, before: &Self, id: u32) -> bool {
        true
    }

    fn sweep(&mut self, id: u32) {
    }
}

impl<C, Rest: StoreList> StoreList for Slot<ComponentStore<C>, Rest> {
    open spec fn swept(&self, before: &Self, id: u32) -> bool {
        slot_swept(self.head, before.head, id) && self.tail.swept(&before.tail, id)
    }

    fn sweep(&mut self, id: u32) {
        let emptied = match self.head.as_mut() {
            Some(store) => {
                store.remove(id);
                store.len() == 0
            },
            None => false,
        };
        if emptied {
            self.head = None;
        }
        self.tail.sweep(id);
    }
}

/// A list of component stores that has a store for components of type `C`.
pub trait SelectStore<C, I>: Select<ComponentStore<C>, I> + StoreList {
    /// What a sweep of the whole list does to the selected slot.
    proof fn lemma_swept_slot(&self, before: &Self, id: u32)
        requires
            self.swept(before, id),
        ensures
            slot_swept(self.slot(), before.slot(), id),
    ;
}

impl<C, Rest: StoreList> SelectStore<C, First> for Slot<ComponentStore<C>, Rest> {
    proof fn lemma_swept_slot(&self, before: &Self, id: u32) {
    }
}

impl<C, H, I, Rest: SelectStore<C, I>> SelectStore<C, Next<I>> for Slot<
    ComponentStore<H>,
    Rest,
> {
    proof fn lemma_swept_slot(&self, before: &Self, id: u32) {
        self.tail.lemma_swept_slot(&before.tail, id);
    }
}

} // verus!
