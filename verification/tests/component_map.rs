use ecs::component_map::ComponentMap;
use ecs::components::Components;
use ecs::slots::{End, Slot};
use ecs::{Entity, ObjectNotFound, StoreResult};
use std::any::TypeId;

type Values = Slot<usize, Slot<String, Slot<u32, End>>>;

#[test]
fn should_create_component_map() {
    //S
    let mut store: ComponentMap<Values> = ComponentMap::new();
    let ent: Entity = Entity { id: 12 };

    //E
    store.set(ent, 0 as usize);
    store.set(ent, "".to_owned());

    //V
    assert_eq!(store.len(), 2);
    assert!(store.contains::<String, _>());
    assert!(store.contains::<usize, _>());
    assert!(!store.contains::<u32, _>());
}

#[test]
fn should_return_item() {
    let mut store: ComponentMap<Values> = ComponentMap::new();
    let ent: Entity = Entity { id: 12 };
    store.set(ent, "ok".to_owned());

    assert_eq!(store.clone::<String, _>().unwrap(), "ok".to_owned());
}

#[test]
fn should_return_none_if_item_not_found() {
    let store: ComponentMap<Values> = ComponentMap::new();
    assert_eq!(store.borrow::<usize, _>(), None);
}

#[test]
fn should_update_item() {
    let mut store: ComponentMap<Values> = ComponentMap::new();
    let ent: Entity = Entity { id: 12 };

    store.set(ent, "ok".to_owned());
    store.set(ent, "updated".to_owned());

    assert_eq!(store.clone::<String, _>().unwrap(), "updated".to_owned());
}

#[test]
fn component_map_set_returns_the_value_it_replaces() {
    let mut store: ComponentMap<Values> = ComponentMap::new();
    let ent: Entity = Entity { id: 12 };

    assert_eq!(store.set(ent, 5u32), None);
    assert_eq!(store.set(ent, 6u32), Some(5));
    assert_eq!(store.set(Entity { id: 13 }, 7u32), Some(6));
    assert_eq!(store.len(), 1);
    assert_eq!(store.borrow::<u32, _>(), Some(&7));
    assert_eq!(store.borrow::<usize, _>(), None);
}

#[test]
fn component_map_borrow_mut_writes_through() {
    let mut store: ComponentMap<Values> = ComponentMap::new();
    let ent: Entity = Entity { id: 12 };
    store.set(ent, 5usize);
    store.set(ent, "kept".to_owned());

    *store.borrow_mut::<usize, _>().unwrap() += 1;

    assert_eq!(store.borrow::<usize, _>(), Some(&6));
    assert_eq!(store.borrow::<String, _>(), Some(&"kept".to_owned()));
    assert!(store.borrow_mut::<u32, _>().is_none());
    assert_eq!(store.clone::<u32, _>(), None);
}

#[test]
fn new_component_map_is_empty() {
    let store: ComponentMap<Values> = ComponentMap::new();
    assert_eq!(store.len(), 0);
    assert!(!store.contains::<usize, _>());
    assert!(!store.contains::<String, _>());
    assert!(!store.contains::<u32, _>());

    let none: ComponentMap<End> = ComponentMap::new();
    assert_eq!(none.len(), 0);
}

#[test]
fn components_set_returns_the_component_it_replaces() {
    let mut components: Components<Values> = Components::default();

    assert_eq!(components.set(1usize), None);
    assert_eq!(components.set("a".to_owned()), None);
    assert_eq!(components.set(2usize), Some(1));
    assert_eq!(components.set("b".to_owned()), Some("a".to_owned()));
    assert_eq!(components.set(3u32), None);
}

#[test]
fn object_not_found_names_what_was_missing() {
    let missing_entity: StoreResult<u32> = Err(ObjectNotFound::Entity(Entity { id: 3 }));
    let missing_component: StoreResult<u32> = Err(ObjectNotFound::Component(TypeId::of::<u32>()));

    match missing_entity {
        Err(ObjectNotFound::Entity(entity)) => assert_eq!(entity, Entity { id: 3 }),
        _ => panic!("an entity was named"),
    }
    match missing_component {
        Err(ObjectNotFound::Component(type_id)) => assert_eq!(type_id, TypeId::of::<u32>()),
        _ => panic!("a component type was named"),
    }
}
