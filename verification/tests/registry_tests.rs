use horizon_event_system::system::keys::{
    client_event_key, core_event_key, gorc_event_key, gorc_instance_event_key, namespace_from_key, plugin_event_key,
};
use horizon_event_system::system::registry::{categorize_key, EventCategory, HandlerRegistry};

#[test]
fn test_event_system_creation() {
    let events: HandlerRegistry<u32> = HandlerRegistry::new();
    let stats = events.get_stats();

    assert_eq!(stats.total_handlers, 0);
    assert_eq!(stats.events_emitted, 0);
}

#[test]
fn test_core_event_registration_and_emission() {
    let mut events: HandlerRegistry<&str> = HandlerRegistry::new();
    events.register_handler(&core_event_key("player_connected"), "handler");
    assert_eq!(events.get_stats().total_handlers, 1);

    assert!(events.record_emission("core:player_connected"));
    assert_eq!(events.get_stats().events_emitted, 1);
}

#[test]
fn test_gorc_event_system() {
    let mut events: HandlerRegistry<u8> = HandlerRegistry::new();
    let key = gorc_event_key("Asteroid", 0, "position_update");
    assert_eq!(key, "gorc:Asteroid:0:position_update");
    events.register_handler(&key, 1);
    assert!(events.record_emission(&key));
    assert_eq!(events.get_stats().gorc_events_emitted, 1);
}

#[test]
fn test_handler_category_stats() {
    let mut events: HandlerRegistry<u8> = HandlerRegistry::new();
    events.register_handler(&core_event_key("test_core"), 0);
    events.register_handler(&client_event_key("test", "test_client"), 0);
    events.register_handler(&plugin_event_key("test_plugin", "test_event"), 0);
    events.register_handler(&gorc_event_key("TestObject", 0, "test_gorc"), 0);

    let category_stats = events.handler_count_by_category();

    assert_eq!(category_stats.core_handlers, 1);
    assert_eq!(category_stats.client_handlers, 1);
    assert_eq!(category_stats.plugin_handlers, 1);
    assert_eq!(category_stats.gorc_handlers, 1);
    assert_eq!(category_stats.gorc_instance_handlers, 0);
}

#[test]
fn test_event_validation() {
    let mut events: HandlerRegistry<u8> = HandlerRegistry::new();
    events.register_handler(&core_event_key("test_event"), 0);

    let issues = events.validate(None);
    assert!(issues.is_empty());
}

#[test]
fn test_handler_removal() {
    let mut events: HandlerRegistry<u8> = HandlerRegistry::new();
    events.register_handler(&core_event_key("test1"), 0);
    events.register_handler(&core_event_key("test2"), 0);
    events.register_handler(&client_event_key("namespace", "test3"), 0);

    assert_eq!(events.get_stats().total_handlers, 3);

    let removed = events.remove_handlers("core:");
    assert_eq!(removed, 2);

    assert_eq!(events.get_stats().total_handlers, 1);
}

#[test]
fn registration_accumulates_under_one_key() {
    let mut events: HandlerRegistry<u8> = HandlerRegistry::new();
    events.register_handler("core:tick", 1);
    events.register_handler("core:tick", 2);
    assert_eq!(events.get_handler_count("core:tick"), 2);
    assert_eq!(events.handlers_for("core:tick").unwrap(), &vec![1, 2]);
    assert_eq!(events.get_registered_events(), vec!["core:tick".to_string()]);
    assert!(events.has_handlers("core:tick"));
    assert!(!events.has_handlers("core:other"));
    assert_eq!(events.get_handler_count("core:other"), 0);
    assert!(events.handlers_for("core:other").is_none());
}

#[test]
fn emission_without_handlers_is_not_counted() {
    let mut events: HandlerRegistry<u8> = HandlerRegistry::new();
    assert!(!events.record_emission("gorc:Ship:1:move"));
    assert_eq!(events.get_stats().events_emitted, 0);
    events.register_handler("core:x", 1);
    assert!(events.record_emission("core:x"));
    assert_eq!(events.get_stats().gorc_events_emitted, 0);
}

#[test]
fn removal_keeps_other_keys() {
    let mut events: HandlerRegistry<u8> = HandlerRegistry::new();
    events.register_handler("core:a", 1);
    events.register_handler("client:chat:a", 2);
    events.register_handler("client:chat:a", 3);
    assert_eq!(events.remove_handlers("chat"), 2);
    assert!(!events.has_handlers("client:chat:a"));
    assert_eq!(events.get_handler_count("core:a"), 1);
    assert_eq!(events.remove_handlers("nothing matches"), 0);
    assert_eq!(events.get_stats().total_handlers, 1);
}

#[test]
fn validation_reports_excessive_handlers_and_objects() {
    let mut events: HandlerRegistry<u8> = HandlerRegistry::new();
    for _ in 0..101 {
        events.register_handler("core:busy", 0);
    }
    let issues = events.validate(Some(10001));
    assert_eq!(
        issues,
        vec![
            "Event key 'core:busy' has excessive handlers: 101".to_string(),
            "High number of GORC objects: 10001".to_string(),
        ]
    );
    assert!(events.validate(Some(10000)).len() == 1);
}

#[test]
fn event_keys_and_categories() {
    assert_eq!(core_event_key("start"), "core:start");
    assert_eq!(client_event_key("chat", "send"), "client:chat:send");
    assert_eq!(plugin_event_key("combat", "hit"), "plugin:combat:hit");
    assert_eq!(gorc_instance_event_key("Player", 12, "moved"), "gorc_instance:Player:12:moved");
    assert_eq!(categorize_key("gorc_instance:Player:0:x"), EventCategory::GorcInstance);
    assert_eq!(categorize_key("gorc:Player:0:x"), EventCategory::Gorc);
    assert_eq!(categorize_key("other"), EventCategory::Uncategorized);
}

#[test]
fn namespaces_of_keys() {
    assert_eq!(namespace_from_key("client:chat:send"), "chat");
    assert_eq!(namespace_from_key("core:start"), "start");
}
