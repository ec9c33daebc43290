use ecs::entity_store::EntityStore;
use std::any::TypeId;

#[test]
fn should_create_store() {
    let mut store: EntityStore = EntityStore::new();
    assert_eq!(&store.get_new_id(), &1);
    assert_eq!(&store.count(), &1);
}

#[test]
fn should_insert_data() {
    let mut store: EntityStore = EntityStore::new();
    let id: u32 = store.get_new_id();

    store.insert(id, TypeId::of::<u32>());
    assert!(&store.contains_id(id));
    assert!(&store.contains_type(id, TypeId::of::<u32>()));
    assert_eq!(&store.count(), &1);
}

#[test]
fn should_remove_data() {
    let mut store: EntityStore = EntityStore::new();
    let id: u32 = store.get_new_id();

    store.insert(id, TypeId::of::<u32>());
    store.remove(id, TypeId::of::<u32>());

    assert!(!&store.contains_type(id, TypeId::of::<u32>()));
    assert!(!&store.contains_id(id));
}

#[test]
fn should_remove_all_data() {
    let mut store: EntityStore = EntityStore::new();
    let id: u32 = store.get_new_id();

    store.insert(id, TypeId::of::<u32>());
    store.insert(id, TypeId::of::<String>());
    store.remove_all(id);

    assert!(!&store.contains_type(id, TypeId::of::<u32>()));
    assert!(!&store.contains_type(id, TypeId::of::<String>()));
    assert!(!&store.contains_id(id));
}

#[test]
fn identifiers_count_from_one() {
    let mut store: EntityStore = EntityStore::new();
    assert_eq!(store.count(), 0);
    assert_eq!(store.get_new_id(), 1);
    assert_eq!(store.get_new_id(), 2);
    assert_eq!(store.get_new_id(), 3);
    assert_eq!(store.count(), 3);
    assert!(store.is_live(1));
    assert!(store.is_live(3));
    assert!(!store.is_live(0));
    assert!(!store.is_live(4));
}

#[test]
fn released_identifiers_are_reused_last_first() {
    let mut store: EntityStore = EntityStore::new();
    for _ in 0..5 {
        store.get_new_id();
    }
    store.remove_all(2);
    store.remove_all(4);
    assert_eq!(store.count(), 3);
    assert!(!store.is_live(2));
    assert!(!store.is_live(4));

    assert_eq!(store.get_new_id(), 4);
    assert_eq!(store.get_new_id(), 2);
    assert_eq!(store.get_new_id(), 6);
    assert_eq!(store.count(), 6);
}

#[test]
fn a_second_release_changes_nothing() {
    let mut store: EntityStore = EntityStore::new();
    store.get_new_id();
    store.get_new_id();
    store.remove_all(1);
    store.remove_all(1);
    store.remove_all(0);
    store.remove_all(9);

    assert_eq!(store.count(), 1);
    assert_eq!(store.get_new_id(), 1);
    assert_eq!(store.get_new_id(), 3);
}

#[test]
fn live_identifiers_are_never_issued_again() {
    let mut store: EntityStore = EntityStore::new();
    let mut live: Vec<u32> = Vec::new();
    for round in 0..40u32 {
        let id = store.get_new_id();
        assert!(!live.contains(&id));
        live.push(id);
        if round % 3 == 2 {
            let gone = live.remove(0);
            store.remove_all(gone);
        }
        assert_eq!(store.count(), live.len());
    }
}

#[test]
fn remove_takes_every_record_of_a_type() {
    let mut store: EntityStore = EntityStore::new();
    let id: u32 = store.get_new_id();

    store.insert(id, TypeId::of::<u32>());
    store.insert(id, TypeId::of::<String>());
    store.insert(id, TypeId::of::<u32>());
    store.remove(id, TypeId::of::<u32>());

    assert!(store.contains_id(id));
    assert!(!store.contains_type(id, TypeId::of::<u32>()));
    assert!(store.contains_type(id, TypeId::of::<String>()));

    store.remove(id, TypeId::of::<u64>());
    assert!(store.contains_type(id, TypeId::of::<String>()));
    store.remove(7, TypeId::of::<String>());
    assert!(store.contains_type(id, TypeId::of::<String>()));
    assert!(!store.contains_id(7));
}

#[test]
fn contains_type_tells_types_apart() {
    let mut store: EntityStore = EntityStore::new();
    let id: u32 = store.get_new_id();

    store.insert(id, TypeId::of::<u32>());
    assert!(store.contains_type(id, TypeId::of::<u32>()));
    assert!(!store.contains_type(id, TypeId::of::<u64>()));
    assert!(!store.contains_type(id + 1, TypeId::of::<u32>()));
    assert_eq!(store.count(), 1);
}
