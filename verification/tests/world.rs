use ecs::entity_factory::EntityFactory;
use ecs::world::{World, INPUT, POSITION, VELOCITY};

#[test]
fn create_world() {
    let mut world: World = World::new();
    let mut factory: EntityFactory = EntityFactory::new();

    world.position.set(1, 2 as u128);

    factory.add_entity();
    factory.delete_entity(0);
    factory.count_entities();
}

#[test]
fn new_world_has_three_empty_stores() {
    let mut world: World = World::new();

    assert_eq!(world.position.len(), 0);
    assert_eq!(world.velocity.len(), 0);
    assert_eq!(world.input.len(), 0);
    assert_eq!(world.position.get_id(), 1);
    assert_eq!(world.velocity.get_id(), 2);
    assert_eq!(world.input.get_id(), 3);

    world.velocity.set(4, "fast".to_owned());
    world.input.set(4, vec![1, 2, 3]);
    assert_eq!(world.velocity.borrow(4), Some(&"fast".to_owned()));
    assert_eq!(world.input.borrow(4), Some(&vec![1, 2, 3]));
    assert_eq!(world.position.borrow(4), None);
}

#[test]
fn component_bits_are_distinct() {
    assert_eq!(POSITION, 1);
    assert_eq!(VELOCITY, 2);
    assert_eq!(INPUT, 16);
}
