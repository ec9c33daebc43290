use crate::component_store::ComponentStore;
use vstd::prelude::*;

verus! {

/// The bit that marks an entity with a position.
pub const POSITION: u32 = 1;

/// The bit that marks an entity with a velocity.
pub const VELOCITY: u32 = 2;

/// The bit that marks an entity with an input.
pub const INPUT: u32 = 16;

/// A fixed layout of three component stores.
pub struct World {
    pub position: ComponentStore<u128>,
    pub velocity: ComponentStore<String>,
    pub input: ComponentStore<Vec<u32>>,
}

impl World {
    /// A world whose stores are empty and carry the labels 1, 2 and 3.
    pub fn new() -> (world: World)
        ensures
            world.position@ == Map::<u32, u128>::empty(),
            world.velocity@ == Map::<u32, String>::empty(),
            world.input@ == Map::<u32, Vec<u32>>::empty(),
            world.position.label() == 1,
            world.velocity.label() == 2,
            world.input.label() == 3,
    {
        World {
            position: ComponentStore::new(1),
            velocity: ComponentStore::new(2),
            input: ComponentStore::new(3),
        }
    }
}

} // verus!
