use crate::component_store::ComponentStore;
use crate::entity_store::{EntityStore, Identities};
use crate::slots::{Select, SlotList};
use crate::store_list::{slot_swept, SelectStore, StoreList};
use crate::{Component, Entity};
use vstd::prelude::*;

verus! {

/// The label of a store that the registry creates on first use.
pub const UNDEFINED: usize = 1;

/// The registry: it hands out entities and keeps, for every component type of
/// the list `S`, the store of the components of that type.
///
/// A store exists only while it is needed: it is created when the first
/// component of its type is attached, and dropped when the last one is removed.
pub struct System<S> {
    components: S,
    entity_store: EntityStore,
}

impl<S> System<S> {
    /// The list of the stores.
    pub closed spec fn stores(&self) -> S {
        self.components
    }

    /// The store of the components of type `C`, where there is one.
    pub open spec fn store<C, I>(&self) -> Option<ComponentStore<C>> where
        S: Select<ComponentStore<C>, I>,
     {
        self.stores().slot()
    }

    /// Whether a store for components of type `C` exists.
    pub open spec fn has_store<C, I>(&self) -> bool where S: Select<ComponentStore<C>, I> {
        self.store::<C, I>() is Some
    }

    /// The components of type `C`, by entity identifier. A type without a store
    /// has no components.
    pub open spec fn components<C, I>(&self) -> Map<u32, C> where S: Select<ComponentStore<C>, I> {
        match self.store::<C, I>() {
            Some(store) => store@,
            None => Map::empty(),
        }
    }

    /// The state of identifier allocation.
    pub closed spec fn identities(&self) -> Identities {
        self.entity_store@
    }

    /// The identifiers of the live entities.
    pub open spec fn live(&self) -> Set<u32> {
        self.identities().live()
    }

    /// The invariant of the registry: its allocation of identifiers is sound.
    /// A new registry has it, and every operation keeps it.
    pub closed spec fn wf(&self) -> bool {
        self.entity_store.wf()
    }

    /// The stores of all types but `C` are in `self` what they are in `other`.
    pub open spec fn same_elsewhere<C, I>(&self, other: &Self) -> bool where
        S: Select<ComponentStore<C>, I>,
     {
        self.stores().same_elsewhere(&other.stores())
    }

    /// The stores of `self` are those of `before` without the components of
    /// entity `id`, and without the stores that this left empty.
    pub open spec fn swept(&self, before: &Self, id: u32) -> bool where S: StoreList {
        self.stores().swept(&before.stores(), id)
    }

    /// No store exists, of any type.
    pub open spec fn vacant(&self) -> bool where S: SlotList {
        self.stores().filled() == 0
    }

    /// A well-formed registry has a well-formed allocation state.
    pub proof fn lemma_wf(&self)
        requires
            self.wf(),
        ensures
            self.identities().wf(),
    {
        self.entity_store.lemma_wf();
    }

    /// Removing an entity takes its component of each type away, leaves the
    /// components of other entities alone, and leaves no empty store behind.
    pub proof fn lemma_swept_store<C, I>(&self, before: &Self, id: u32) where
        S: SelectStore<C, I>,

        requires
            self.swept(before, id),
        ensures
            slot_swept(self.store::<C, I>(), before.store::<C, I>(), id),
            self.components::<C, I>() == before.components::<C, I>().remove(id),
            !self.components::<C, I>().contains_key(id),
            self.has_store::<C, I>() <==> before.components::<C, I>().remove(id).len() > 0,
    {
        self.stores().lemma_swept_slot(&before.stores(), id);
        match before.store::<C, I>() {
            Some(b) => {
                b.lemma_view_finite();
                if b@.remove(id).len() == 0 {
                    b@.remove(id).dom().lemma_len0_is_empty();
                    assert(b@.remove(id) =~= Map::<u32, C>::empty());
                }
            },
            None => {
                assert(Map::<u32, C>::empty().remove(id) =~= Map::<u32, C>::empty());
            },
        }
    }

    /// Removing the last component of a type leaves the registry as if the
    /// type had never been used: where `self` is `before` once the component of
    /// type `C` of entity `id` was removed, and no other entity had one, no
    /// store for `C` exists and no component of type `C` is counted.
    pub proof fn lemma_remove_last<C, I>(&self, before: &Self, id: u32) where
        S: Select<ComponentStore<C>, I>,

        requires
            slot_swept(self.store::<C, I>(), before.store::<C, I>(), id),
            forall|other: u32| before.components::<C, I>().contains_key(other) ==> other == id,
        ensures
            !self.has_store::<C, I>(),
            self.store::<C, I>() == None::<ComponentStore<C>>,
            self.components::<C, I>() == Map::<u32, C>::empty(),
            self.components::<C, I>().len() == 0,
    {
        assert(before.components::<C, I>().remove(id) =~= Map::<u32, C>::empty());
    }

    /// What is written through exclusive access is what a later lookup finds:
    /// where `self` is `before` once `written` was left in the component of
    /// type `C` of entity `id`, a lookup of that component finds `written`.
    pub proof fn lemma_get_mut_then_get<C, I>(&self, before: &Self, id: u32, written: C) where
        S: Select<ComponentStore<C>, I>,

        requires
            self.components::<C, I>() == before.components::<C, I>().insert(id, written),
        ensures
            self.components::<C, I>().get(id) == Some(written),
    {
    }

    /// A registry without entities and without stores.
    pub fn new() -> (sys: System<S>) where S: SlotList
        ensures
            sys.wf(),
            sys.identities() == Identities::fresh(),
            sys.vacant(),
    {
        System { components: S::blank(), entity_store: EntityStore::new() }
    }

    /// In a registry without stores no type has a store.
    pub proof fn lemma_vacant<C, I>(&self) where S: Select<ComponentStore<C>, I>
        requires
            self.vacant(),
        ensures
            !self.has_store::<C, I>(),
    {
        self.stores().lemma_blank_slot();
    }

    /// Makes an entity whose identifier no live entity has.
    pub fn new_entity(&mut self) -> (entity: Entity)
        requires
            old(self).wf(),
            old(self).identities().can_allocate(),
        ensures
            final(self).wf(),
            entity.id == old(self).identities().next(),
            final(self).identities() == old(self).identities().allocate(),
            !old(self).live().contains(entity.id),
            final(self).live() == old(self).live().insert(entity.id),
            final(self).stores() == old(self).stores(),
    {
        let new_entity: Entity = Entity { id: self.entity_store.get_new_id() };
        new_entity
    }

    /// The number of live entities: the identifiers that were issued, less
    /// those that wait for reuse.
    pub fn count_entities(&self) -> (n: usize)
        requires
            self.wf(),
        ensures
            n == self.live().len(),
            n == self.identities().issued - self.identities().free.len(),
    {
        self.entity_store.count()
    }

    /// Removes an entity: its components leave every store, its identifier
    /// becomes free for reuse. For an identifier that is not live only the
    /// components are removed.
    pub fn remove_entity(&mut self, entity: Entity) where S: StoreList
        requires
            old(self).wf(),
        ensures
            final(self).wf(),
            final(self).swept(old(self), entity.id),
            final(self).identities() == old(self).identities().release(entity.id),
            final(self).live() == old(self).live().remove(entity.id),
            old(self).live().contains(entity.id) ==> final(self).live().len() + 1
                == old(self).live().len(),
    {
        proof {
            old(self).lemma_wf();
            old(self).identities().lemma_release(entity.id);
        }
        self.components.sweep(entity.id);
        self.entity_store.remove_all(entity.id);
    }

    /// Whether a store for components of type `C` exists.
    fn contains_type_id<C: Component, I>(&self) -> (found: bool) where
        S: Select<ComponentStore<C>, I>,

        ensures
            found == self.has_store::<C, I>(),
    {
        self.components.slot_ref().is_some()
    }

    /// Exclusive access to the store of the components of type `C`, where it
    /// exists. What the caller leaves in the store is what the registry holds
    /// afterwards, and no other store changes.
    fn get_mut_store<C: Component, I>(&mut self) -> (found: Option<
        &mut ComponentStore<C>,
    >) where S: Select<ComponentStore<C>, I>

        ensures
            match found {
                Some(store) => {
                    &&& old(self).store::<C, I>() == Some(*store)
                    &&& final(self).store::<C, I>() == Some(*final(store))
                },
                None => {
                    &&& old(self).store::<C, I>() is None
                    &&& final(self).store::<C, I>() is None
                },
            },
            final(self).same_elsewhere::<C, I>(old(self)),
            final(self).identities() == old(self).identities(),
            final(self).wf() == old(self).wf(),
    {
        self.components.slot_mut().as_mut()
    }

    /// Drops the store of the components of type `C` where it holds nothing.
    fn clean_store<C: Component, I>(&mut self) where S: Select<ComponentStore<C>, I>
        ensures
            final(self).store::<C, I>() == match old(self).store::<C, I>() {
                Some(store) => if store@.len() == 0 {
                    None
                } else {
                    Some(store)
                },
                None => None,
            },
            final(self).same_elsewhere::<C, I>(old(self)),
            final(self).identities() == old(self).identities(),
            final(self).wf() == old(self).wf(),
    {
        let slot = self.components.slot_mut();
        let emptied = match slot.as_ref() {
            Some(store) => store.len() == 0,
            None => false,
        };
        if emptied {
            *slot = None;
        }
    }

    /// Attaches `component` to `entity`, in place of the component of that type
    /// that it may have had, which is returned. The store for the type is
    /// created where it did not exist.
    pub fn set<C: Component, I>(&mut self, entity: Entity, component: C) -> (previous: Option<
        C,
    >) where S: Select<ComponentStore<C>, I>
        ensures
            final(self).has_store::<C, I>(),
            final(self).components::<C, I>() == old(self).components::<C, I>().insert(
                entity.id,
                component,
            ),
            previous == old(self).components::<C, I>().get(entity.id),
            final(self).store::<C, I>().unwrap().label() == match old(self).store::<C, I>() {
                Some(store) => store.label(),
                None => UNDEFINED,
            },
            final(self).same_elsewhere::<C, I>(old(self)),
            final(self).identities() == old(self).identities(),
            final(self).wf() == old(self).wf(),
    {
        if !self.contains_type_id::<C, I>() {
            let slot = self.components.slot_mut();
            *slot = Some(ComponentStore::new(UNDEFINED));
        }
        let ghost middle = *self;
        let previous = match self.get_mut_store::<C, I>() {
            Some(store) => store.set(entity.id, component),
            None => None,
        };
        proof {
            old(self).stores().lemma_same_elsewhere_refl();
            self.stores().lemma_same_elsewhere_trans(&middle.stores(), &old(self).stores());
        }
        previous
    }

    /// Exclusive access to the component of type `C` of `entity`. Whatever the
    /// caller writes through the reference is what the registry holds afterwards.
    pub fn get_mut<C: Component, I>(&mut self, entity: Entity) -> (found: Option<&mut C>) where
        S: Select<ComponentStore<C>, I>,

        ensures
            match found {
                Some(v) => {
                    &&& old(self).components::<C, I>().contains_key(entity.id)
                    &&& *v == old(self).components::<C, I>()[entity.id]
                    &&& final(self).components::<C, I>()
                        == old(self).components::<C, I>().insert(entity.id, *final(v))
                },
                None => {
                    &&& !old(self).components::<C, I>().contains_key(entity.id)
                    &&& final(self).components::<C, I>() == old(self).components::<C, I>()
                },
            },
            final(self).has_store::<C, I>() == old(self).has_store::<C, I>(),
            final(self).same_elsewhere::<C, I>(old(self)),
            final(self).identities() == old(self).identities(),
            final(self).wf() == old(self).wf(),
    {
        match self.get_mut_store::<C, I>() {
            Some(store) => store.borrow_mut(entity.id),
            None => None,
        }
    }

    /// Read access to the component of type `C` of `entity`.
    pub fn get<C: Component, I>(&self, entity: Entity) -> (found: Option<&C>) where
        S: Select<ComponentStore<C>, I>,

        ensures
            match found {
                Some(v) => self.components::<C, I>().contains_key(entity.id) && *v
                    == self.components::<C, I>()[entity.id],
                None => !self.components::<C, I>().contains_key(entity.id),
            },
    {
        match self.components.slot_ref().as_ref() {
            Some(store) => store.borrow(entity.id),
            None => None,
        }
    }

    /// Exclusive access to the whole store of the components of type `C`, where
    /// it exists, for passes over all entities that have such a component.
    pub fn get_mut_components<C: Component, I>(&mut self) -> (found: Option<
        &mut ComponentStore<C>,
    >) where S: Select<ComponentStore<C>, I>

        ensures
            match found {
                Some(store) => {
                    &&& old(self).store::<C, I>() == Some(*store)
                    &&& final(self).store::<C, I>() == Some(*final(store))
                },
                None => {
                    &&& old(self).store::<C, I>() is None
                    &&& final(self).store::<C, I>() is None
                },
            },
            final(self).same_elsewhere::<C, I>(old(self)),
            final(self).identities() == old(self).identities(),
            final(self).wf() == old(self).wf(),
    {
        self.get_mut_store::<C, I>()
    }

    /// The same access under its shorter name.
    pub fn get_component<C: Component, I>(&mut self) -> (found: Option<
        &mut ComponentStore<C>,
    >) where S: Select<ComponentStore<C>, I>

        ensures
            match found {
                Some(store) => {
                    &&& old(self).store::<C, I>() == Some(*store)
                    &&& final(self).store::<C, I>() == Some(*final(store))
                },
                None => {
                    &&& old(self).store::<C, I>() is None
                    &&& final(self).store::<C, I>() is None
                },
            },
            final(self).same_elsewhere::<C, I>(old(self)),
            final(self).identities() == old(self).identities(),
            final(self).wf() == old(self).wf(),
    {
        self.get_mut_store::<C, I>()
    }

    /// Detaches the component of type `C` from `entity` and returns it. The
    /// store of the type is dropped where this leaves it empty.
    pub fn remove<C: Component, I>(&mut self, entity: Entity) -> (previous: Option<C>) where
        S: Select<ComponentStore<C>, I>,

        ensures
            previous == old(self).components::<C, I>().get(entity.id),
            final(self).components::<C, I>() == old(self).components::<C, I>().remove(entity.id),
            final(self).has_store::<C, I>() <==> final(self).components::<C, I>().len() > 0,
            slot_swept(final(self).store::<C, I>(), old(self).store::<C, I>(), entity.id),
            final(self).same_elsewhere::<C, I>(old(self)),
            final(self).identities() == old(self).identities(),
            final(self).wf() == old(self).wf(),
    {
        let previous = match self.get_mut_store::<C, I>() {
            Some(store) => store.remove(entity.id),
            None => None,
        };
        let ghost middle = *self;
        self.clean_store::<C, I>();
        proof {
            self.stores().lemma_same_elsewhere_trans(&middle.stores(), &old(self).stores());
            match old(self).store::<C, I>() {
                Some(b) => {
                    b.lemma_view_finite();
                    if b@.remove(entity.id).len() == 0 {
                        b@.remove(entity.id).dom().lemma_len0_is_empty();
                        assert(b@.remove(entity.id) =~= Map::<u32, C>::empty());
                    }
                },
                None => {
                    assert(Map::<u32, C>::empty().remove(entity.id) =~= Map::<u32, C>::empty());
                },
            }
        }
        previous
    }

    /// Drops the store of the components of type `C`, with all it holds.
    pub fn remove_components<C: Component, I>(&mut self) where S: Select<ComponentStore<C>, I>
        ensures
            !final(self).has_store::<C, I>(),
            final(self).same_elsewhere::<C, I>(old(self)),
            final(self).identities() == old(self).identities(),
            final(self).wf() == old(self).wf(),
    {
        let slot = self.components.slot_mut();
        *slot = None;
    }

    /// The number of components of type `C`.
    pub fn count<C: Component, I>(&self) -> (n: usize) where S: Select<ComponentStore<C>, I>
        ensures
            n == self.components::<C, I>().len(),
    {
        match self.components.slot_ref().as_ref() {
            Some(store) => store.len(),
            None => 0,
        }
    }
}

} // verus!
