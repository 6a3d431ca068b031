use dendrite::handler_registry::{empty_handler_registry, HandleBuilder, RegistryError};

#[test]
fn handler_names_are_unique() {
    let mut registry = empty_handler_registry::<u32>();
    assert!(registry.insert_handle("GreetCommand", 1).is_ok());
    assert!(registry.insert_handle("RecordCommand", 2).is_ok());
    match registry.insert_handle("GreetCommand", 3) {
        Err(RegistryError::AlreadyRegistered(name)) => assert_eq!(name, "GreetCommand"),
        other => panic!("unexpected {:?}", other),
    }
    // The rejected handler did not replace the registered one.
    assert_eq!(registry.get("GreetCommand"), Some(&1));
    assert_eq!(registry.get("RecordCommand"), Some(&2));
    assert_eq!(registry.get("Other"), None);
    assert_eq!(registry.handler_names(), vec!["GreetCommand".to_string(), "RecordCommand".to_string()]);
}

#[test]
fn category_handlers_need_a_valid_pattern_and_a_free_name() {
    let mut registry = empty_handler_registry::<u32>();
    assert!(registry.insert_handle("any-event", 1).is_ok());
    match registry.append_category_handle("foo(bar", "other", 2) {
        Err(RegistryError::InvalidPattern(p)) => assert_eq!(p, "foo(bar"),
        other => panic!("unexpected {:?}", other),
    }
    match registry.append_category_handle(".*", "any-event", 2) {
        Err(RegistryError::AlreadyRegistered(n)) => assert_eq!(n, "any-event"),
        other => panic!("unexpected {:?}", other),
    }
    assert!(registry.append_category_handle(".*", "catch-all", 3).is_ok());
    // Category handlers are not found by name.
    assert_eq!(registry.get("catch-all"), None);
}

#[test]
fn handle_builder_sets_wrapper() {
    let b = HandleBuilder::<u8, u16, u32>::new("GreetCommand", 1, 2);
    let s = b.with_mapped_output("Greeting", 3).build();
    assert_eq!(s.name, "GreetCommand");
    assert_eq!(s.deserializer, 1);
    assert_eq!(s.handler, 2);
    let w = s.wrapper.unwrap();
    assert_eq!(w.type_label, "Greeting");
    assert_eq!(w.convert, 3);
    let ignored = HandleBuilder::<u8, u16, u32>::new("X", 1, 2)
        .with_mapped_output("Y", 3)
        .ignore_output()
        .build();
    assert!(ignored.wrapper.is_none());
}
