use ecs::component::Component;

struct MyStruct {
    pub title: String,
    pub value: u32,
}

#[test]
fn component_should_create_component() {
    let comp: Component<u32> = Component::new(123);
    assert_eq!(comp.count(), 0);
}

#[test]
fn component_should_get_component_id() {
    let comp: Component<u32> = Component::new(123);
    assert_eq!(comp.get_id(), 123);
}

#[test]
fn component_should_add_new_items() {
    let comp: &mut Component<u32> = &mut Component::new(123);
    comp.add(1, 456);
    comp.add(2, 789);

    assert_eq!(2, comp.count());
}

#[test]
fn component_should_edit_items() {
    let comp: &mut Component<MyStruct> = &mut Component::new(123);
    let test_entity = MyStruct {
        title: "OK".to_owned(),
        value: 10,
    };

    comp.add(1, test_entity);

    let entity: &mut MyStruct = &mut comp.get(1);
    assert_eq!(entity.title, "OK");
    assert_eq!(entity.value, 10);

    entity.title = "NEW VALUE".to_owned();
    entity.value = entity.value + 1;
    let updated_entity: &mut MyStruct = &mut comp.get(1);

    assert_eq!(updated_entity.title, "NEW VALUE");
    assert_eq!(updated_entity.value, 11);
}

#[test]
fn component_should_delete_item() {
    let comp: &mut Component<u32> = &mut Component::new(123);
    comp.add(1, 456);

    assert_eq!(1, comp.count());
    comp.remove(1);

    assert_eq!(0, comp.count());
}

#[test]
fn component_add_replaces_the_value_of_an_entity() {
    let mut comp: Component<u32> = Component::new(7);
    comp.add(1, 456);
    comp.add(1, 457);

    assert_eq!(comp.count(), 1);
    assert_eq!(*comp.get(1), 457);
    assert_eq!(comp.get_id(), 7);
}

#[test]
fn component_remove_of_an_absent_entity_changes_nothing() {
    let mut comp: Component<u32> = Component::new(7);
    comp.add(1, 456);
    comp.remove(2);

    assert_eq!(comp.count(), 1);
    assert_eq!(*comp.get(1), 456);
}
