use ecs::component_store::ComponentStore;

struct MyStruct {
    pub title: String,
    pub value: u32,
}

#[test]
fn component_store_should_create_component() {
    let store: ComponentStore<u32> = ComponentStore::new(123);
    assert_eq!(store.len(), 0);
}

#[test]
fn component_store_should_get_component_id() {
    let store: ComponentStore<u32> = ComponentStore::new(123);
    assert_eq!(store.get_id(), 123);
}

#[test]
fn component_store_should_add_new_items() {
    let store: &mut ComponentStore<u32> = &mut ComponentStore::new(123);
    store.set(1, 456);
    store.set(2, 789);

    assert_eq!(2, store.len());
}

#[test]
fn component_store_should_edit_items() {
    let store: &mut ComponentStore<MyStruct> = &mut ComponentStore::new(123);
    let test_entity = MyStruct {
        title: "OK".to_owned(),
        value: 10,
    };

    store.set(1, test_entity);

    let entity: &mut MyStruct = store.borrow_mut(1).unwrap();
    assert_eq!(entity.title, "OK");
    assert_eq!(entity.value, 10);

    entity.title = "NEW VALUE".to_owned();
    entity.value = entity.value + 1;
    let updated_entity: &mut MyStruct = store.borrow_mut(1).unwrap();

    assert_eq!(updated_entity.title, "NEW VALUE");
    assert_eq!(updated_entity.value, 11);
}

#[test]
fn component_store_should_delete_item() {
    let store: &mut ComponentStore<u32> = &mut ComponentStore::new(123);
    store.set(1, 456);

    assert_eq!(1, store.len());
    store.remove(1);

    assert_eq!(0, store.len());
}

#[test]
fn should_parse_items() {
    let store: &mut ComponentStore<MyStruct> = &mut ComponentStore::new(123);
    let test_entity_1 = MyStruct {
        title: "OK".to_owned(),
        value: 10,
    };

    let test_entity_2 = MyStruct {
        title: "WOOT".to_owned(),
        value: 35,
    };

    store.set(1, test_entity_1);
    store.set(2, test_entity_2);

    for item in store.iterate() {
        let id: u32 = item.0;
        let value: &MyStruct = item.1;
        println!("{:?}:{:?}", id, value.title);
    }
}

#[test]
fn set_then_borrow_returns_the_value() {
    let mut store: ComponentStore<String> = ComponentStore::new(1);
    assert_eq!(store.set(4, "v".to_owned()), None);
    assert_eq!(store.borrow(4), Some(&"v".to_owned()));
    assert_eq!(store.borrow(5), None);
}

#[test]
fn remove_then_borrow_returns_nothing() {
    let mut store: ComponentStore<u32> = ComponentStore::new(1);
    store.set(4, 40);
    assert_eq!(store.remove(4), Some(40));
    assert_eq!(store.borrow(4), None);
    assert_eq!(store.remove(4), None);
    assert_eq!(store.len(), 0);
}

#[test]
fn set_twice_returns_the_first_value_and_keeps_the_second() {
    let mut store: ComponentStore<u32> = ComponentStore::new(1);
    assert_eq!(store.set(4, 40), None);
    assert_eq!(store.set(4, 41), Some(40));
    assert_eq!(store.borrow(4), Some(&41));
    assert_eq!(store.len(), 1);
}

#[test]
fn borrow_mut_of_an_absent_entity_returns_nothing() {
    let mut store: ComponentStore<u32> = ComponentStore::new(1);
    store.set(4, 40);
    assert!(store.borrow_mut(5).is_none());
    assert_eq!(store.borrow(4), Some(&40));
    assert_eq!(store.len(), 1);
}

#[test]
fn ids_names_every_entity_once() {
    let mut store: ComponentStore<u32> = ComponentStore::new(1);
    store.set(9, 90);
    store.set(3, 30);
    store.set(9, 91);
    store.set(5, 50);
    store.remove(3);

    let mut ids = store.ids();
    ids.sort();
    assert_eq!(ids, vec![5, 9]);
}

#[test]
fn iterate_pairs_every_component_with_its_entity() {
    let mut store: ComponentStore<u32> = ComponentStore::new(1);
    assert!(store.iterate().is_empty());
    store.set(9, 90);
    store.set(3, 30);

    let mut entries: Vec<(u32, u32)> = Vec::new();
    for entry in store.iterate() {
        entries.push((entry.0, *entry.1));
    }
    entries.sort();
    assert_eq!(entries, vec![(3, 30), (9, 90)]);
}

#[test]
fn iterate_mut_replaces_every_component() {
    let mut store: ComponentStore<u32> = ComponentStore::new(8);
    store.set(9, 90);
    store.set(3, 30);
    store.iterate_mut(|id, value| value + id);

    assert_eq!(store.len(), 2);
    assert_eq!(store.borrow(9), Some(&99));
    assert_eq!(store.borrow(3), Some(&33));
    assert_eq!(store.get_id(), 8);
}
