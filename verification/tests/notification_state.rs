use cinny::notification_state::{NotificationData, NotificationState};

fn data(id: &str, room: Option<&str>) -> NotificationData {
    NotificationData {
        id: id.to_string(),
        room_id: room.map(|r| r.to_string()),
        event_id: None,
        tag: None,
    }
}

#[test]
fn test_add_notification() {
    let mut state = NotificationState::new();
    let data = NotificationData {
        id: "notif1".to_string(),
        room_id: Some("!room:server.com".to_string()),
        event_id: Some("$event".to_string()),
        tag: Some("tag1".to_string()),
    };

    state.add(data.clone());
    let retrieved = state.get("notif1");
    assert!(retrieved.is_some());
    assert_eq!(retrieved.unwrap().room_id, data.room_id);
}

#[test]
fn test_remove_notification() {
    let mut state = NotificationState::new();
    let data = NotificationData {
        id: "notif1".to_string(),
        room_id: Some("!room:server.com".to_string()),
        event_id: None,
        tag: None,
    };

    state.add(data);
    state.remove("notif1");
    assert!(state.get("notif1").is_none());
}

#[test]
fn test_get_by_room() {
    let mut state = NotificationState::new();
    state.add(NotificationData {
        id: "notif1".to_string(),
        room_id: Some("!room1:server.com".to_string()),
        event_id: None,
        tag: None,
    });
    state.add(NotificationData {
        id: "notif2".to_string(),
        room_id: Some("!room1:server.com".to_string()),
        event_id: None,
        tag: None,
    });
    state.add(NotificationData {
        id: "notif3".to_string(),
        room_id: Some("!room2:server.com".to_string()),
        event_id: None,
        tag: None,
    });

    let room1_notifs = state.get_by_room("!room1:server.com");
    assert_eq!(room1_notifs.len(), 2);
}

#[test]
fn add_under_same_id_replaces() {
    let mut state = NotificationState::new();
    state.add(data("a", Some("!r1")));
    state.add(data("a", Some("!r2")));
    assert_eq!(state.get("a").unwrap().room_id, Some("!r2".to_string()));
    assert!(state.get_by_room("!r1").is_empty());
    assert_eq!(state.get_by_room("!r2").len(), 1);
}

#[test]
fn add_keeps_other_ids() {
    let mut state = NotificationState::new();
    state.add(data("a", Some("!r1")));
    state.add(data("b", None));
    assert_eq!(state.get("a").unwrap().room_id, Some("!r1".to_string()));
    assert_eq!(state.get("b").unwrap().room_id, None);
    assert!(state.get("c").is_none());
}

#[test]
fn remove_returns_stored_and_leaves_others() {
    let mut state = NotificationState::new();
    state.add(data("a", Some("!r1")));
    state.add(data("b", Some("!r1")));
    let removed = state.remove("a").unwrap();
    assert_eq!(removed.id, "a");
    assert_eq!(removed.room_id, Some("!r1".to_string()));
    assert!(state.remove("a").is_none());
    assert!(state.get("b").is_some());
    assert!(state.remove("missing").is_none());
}

#[test]
fn clear_forgets_everything() {
    let mut state = NotificationState::default();
    state.add(data("a", Some("!r1")));
    state.add(data("b", None));
    state.clear();
    assert!(state.get("a").is_none());
    assert!(state.get("b").is_none());
    assert!(state.get_by_room("!r1").is_empty());
}

#[test]
fn get_by_room_lists_exactly_the_room() {
    let mut state = NotificationState::new();
    state.add(data("a", Some("!r1")));
    state.add(data("b", None));
    state.add(data("c", Some("!r2")));
    state.add(data("d", Some("!r1")));
    let mut ids: Vec<String> = state.get_by_room("!r1").into_iter().map(|d| d.id).collect();
    ids.sort();
    assert_eq!(ids, vec!["a".to_string(), "d".to_string()]);
    assert!(state.get_by_room("").is_empty());
}

#[test]
fn get_returns_full_record() {
    let mut state = NotificationState::new();
    state.add(NotificationData {
        id: "x".to_string(),
        room_id: Some("!r".to_string()),
        event_id: Some("$e".to_string()),
        tag: Some("t".to_string()),
    });
    let got = state.get("x").unwrap();
    assert_eq!(got.id, "x");
    assert_eq!(got.event_id, Some("$e".to_string()));
    assert_eq!(got.tag, Some("t".to_string()));
}
