use cinny::json::JsonValue;
use cinny::notifications::{
    close_notification, extract_room_id, get_notification_permission, request_notification_permission,
    show_notification, NotificationManager, NotificationOptions,
};

fn no_options() -> NotificationOptions {
    NotificationOptions {
        body: None,
        icon: None,
        tag: None,
        data: None,
        room_id: None,
        event_id: None,
        room_type: None,
        has_mention: None,
    }
}

fn pairs(p: &[(String, String)]) -> Vec<(&str, &str)> {
    p.iter().map(|(k, v)| (k.as_str(), v.as_str())).collect()
}

#[test]
fn test_extract_room_id_from_data() {
    let options = NotificationOptions {
        body: None,
        icon: None,
        tag: None,
        data: Some(JsonValue::Object(vec![(
            "roomId".to_string(),
            JsonValue::String("!room:server.com".to_string()),
        )])),
        room_id: None,
        event_id: None,
        room_type: None,
        has_mention: None,
    };

    let room_id = extract_room_id(&options);
    assert_eq!(room_id, Some("!room:server.com".to_string()));
}

#[test]
fn explicit_room_id_wins_over_data() {
    let mut options = no_options();
    options.room_id = Some("!explicit".to_string());
    options.data = Some(JsonValue::Object(vec![("roomId".to_string(), JsonValue::String("!data".to_string()))]));
    assert_eq!(extract_room_id(&options), Some("!explicit".to_string()));
}

#[test]
fn room_id_from_data_needs_a_string_member() {
    let mut options = no_options();
    assert_eq!(extract_room_id(&options), None);
    options.data = Some(JsonValue::Object(vec![("roomId".to_string(), JsonValue::Number("5".to_string()))]));
    assert_eq!(extract_room_id(&options), None);
    options.data = Some(JsonValue::Object(vec![("room".to_string(), JsonValue::String("!r".to_string()))]));
    assert_eq!(extract_room_id(&options), None);
    options.data = Some(JsonValue::String("!r".to_string()));
    assert_eq!(extract_room_id(&options), None);
    options.data = Some(JsonValue::Object(vec![
        ("other".to_string(), JsonValue::Null),
        ("roomId".to_string(), JsonValue::String("!second".to_string())),
    ]));
    assert_eq!(extract_room_id(&options), Some("!second".to_string()));
}

#[test]
fn permissions_are_granted() {
    assert_eq!(request_notification_permission(), Ok("granted".to_string()));
    assert_eq!(get_notification_permission(), Ok("granted".to_string()));
}

#[test]
fn show_records_and_builds_request() {
    let mut manager = NotificationManager::new();
    let mut options = no_options();
    options.room_id = Some("!room:server.com".to_string());
    options.event_id = Some("$event".to_string());
    options.tag = Some("tag1".to_string());
    options.room_type = Some("direct".to_string());
    let request = show_notification(&mut manager, "n1".to_string(), "Title".to_string(), "Hello".to_string(), options);

    assert_eq!(request.title, "Title");
    assert_eq!(request.body, "Hello");
    assert_eq!(request.large_body, "Hello");
    assert_eq!(request.group, Some("cinny_room_!room:server.com".to_string()));
    assert_eq!(request.sound, "default");
    assert_eq!(request.channel, "direct_messages");
    assert_eq!(
        pairs(&request.extras),
        vec![("notification_id", "n1"), ("room_id", "!room:server.com"), ("event_id", "$event")]
    );

    let stored = manager.state().get("n1").unwrap();
    assert_eq!(stored.id, "n1");
    assert_eq!(stored.room_id, Some("!room:server.com".to_string()));
    assert_eq!(stored.event_id, Some("$event".to_string()));
    assert_eq!(stored.tag, Some("tag1".to_string()));
}

#[test]
fn show_without_room_has_no_group() {
    let mut manager = NotificationManager::new();
    let mut options = no_options();
    options.has_mention = Some(true);
    let request = show_notification(&mut manager, "n2".to_string(), "T".to_string(), "B".to_string(), options);
    assert_eq!(request.group, None);
    assert_eq!(request.channel, "mentions");
    assert_eq!(pairs(&request.extras), vec![("notification_id", "n2")]);
    assert_eq!(manager.state().get("n2").unwrap().room_id, None);
}

#[test]
fn show_uses_room_from_data_and_default_channel() {
    let mut manager = NotificationManager::new();
    let mut options = no_options();
    options.data = Some(JsonValue::Object(vec![("roomId".to_string(), JsonValue::String("!d".to_string()))]));
    let request = show_notification(&mut manager, "n3".to_string(), "T".to_string(), "B".to_string(), options);
    assert_eq!(request.group, Some("cinny_room_!d".to_string()));
    assert_eq!(request.channel, "room_messages");
    assert_eq!(pairs(&request.extras), vec![("notification_id", "n3"), ("room_id", "!d")]);
    assert_eq!(manager.state().get_by_room("!d").len(), 1);
}

#[test]
fn close_forgets_the_notification() {
    let mut manager = NotificationManager::new();
    show_notification(&mut manager, "n1".to_string(), "T".to_string(), "B".to_string(), no_options());
    show_notification(&mut manager, "n2".to_string(), "T".to_string(), "B".to_string(), no_options());
    assert_eq!(close_notification(&mut manager, "n1".to_string()), Ok(()));
    assert!(manager.state().get("n1").is_none());
    assert!(manager.state().get("n2").is_some());
    assert_eq!(close_notification(&mut manager, "n1".to_string()), Ok(()));
}

#[test]
fn json_get_and_as_str() {
    let v = JsonValue::Object(vec![
        ("a".to_string(), JsonValue::Bool(true)),
        ("b".to_string(), JsonValue::String("text".to_string())),
    ]);
    assert!(v.get("a").is_some());
    assert!(v.get("a").unwrap().as_str().is_none());
    assert_eq!(v.get("b").unwrap().as_str(), Some("text"));
    assert!(v.get("c").is_none());
    assert!(JsonValue::Array(vec![JsonValue::Null]).get("a").is_none());
}
