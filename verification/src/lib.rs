//! An in-memory entity-component store.
//!
//! Entities are integer handles. Components are typed values attached to
//! entities, kept in one store per component type. The registry hands out
//! entities and routes each typed operation to the store of its type.
//!
//! The component types of a registry are the slots of a list type, so that a
//! store is found by its type alone: `Slot<ComponentStore<A>,
//! Slot<ComponentStore<B>, End>>` is the list for the component types `A` and
//! `B`. Every operation carries a contract over the mathematical view of the
//! data: a map from entity identifiers to components for a store, the set of
//! live identifiers and the sequence of reusable ones for the allocation of
//! identifiers.
use std::any::TypeId;
use vstd::prelude::*;

pub mod component;
pub mod component_map;
pub mod component_store;
pub mod components;
pub mod entity_factory;
pub mod entity_store;
pub mod slots;
pub mod store_list;
pub mod system;
pub mod world;

verus! {

/// What can be attached to an entity: any type that borrows nothing.
pub trait Component: 'static {

}

impl<T: 'static> Component for T {

}

/// A lightweight handle that names one logical object by its integer identifier.
///
/// An entity owns no data: components are attached to it by identifier, and
/// copying the handle copies nothing but that identifier.
#[derive(Clone, Copy, PartialEq, Eq, Hash, Debug, Structural)]
pub struct Entity {
    pub id: u32,
}

/// What a lookup names when it comes back empty-handed.
pub enum ObjectNotFound {
    /// A requested entity was not present in the system.
    Entity(Entity),
    /// A requested component was not present on an entity.
    Component(TypeId),
}

/// The outcome of a lookup that says what was missing.
pub type StoreResult<T> = Result<T, ObjectNotFound>;

} // verus!
