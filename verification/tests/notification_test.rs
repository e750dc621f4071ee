use room_sync_core::errors::{ClientError, StoreError};
use room_sync_core::ids::{parse_event_id, parse_room_id};
use room_sync_core::memory_store::MemoryStore;
use room_sync_core::notification::{
    NotificationClient, NotificationEvent, NotificationItem, SdkNotificationEvent,
    SdkNotificationItem,
};
use room_sync_core::rooms::{JoinRule, RoomState};
use room_sync_core::store::{BaseStateStore, SessionMeta};

fn meta() -> SessionMeta {
    SessionMeta { user_id: "@me:example.org".to_string(), device_id: "DEVICE".to_string() }
}

#[test]
fn parse_room_id_accepts_valid_and_rejects_malformed() {
    assert_eq!(parse_room_id("!room:example.org").unwrap(), "!room:example.org");
    assert!(parse_room_id("not-a-room-id").is_err());
    assert!(parse_room_id("").is_err());
}

#[test]
fn parse_event_id_accepts_valid_and_rejects_malformed() {
    assert_eq!(parse_event_id("$someevent").unwrap(), "$someevent");
    assert!(parse_event_id("someevent").is_err());
}

#[test]
fn get_room_parses_and_looks_up() {
    let mut store = BaseStateStore::new(MemoryStore::new());
    store.set_or_reload_session(meta()).unwrap();
    store.get_or_create_room(&"!known:example.org".to_string(), RoomState::Joined);
    let client = NotificationClient::new(store);

    let found = client.get_room("!known:example.org".to_string()).unwrap();
    assert_eq!(found.unwrap().room_id(), "!known:example.org");

    let missing = client.get_room("!unknown:example.org".to_string()).unwrap();
    assert!(missing.is_none());

    let malformed = client.get_room("garbage".to_string());
    assert!(matches!(malformed, Err(ClientError::Generic { .. })));
}

#[test]
fn from_inner_carries_every_field_over() {
    let item = SdkNotificationItem {
        event: SdkNotificationEvent::Timeline { event: "payload".to_string() },
        sender_display_name: Some("Alice".to_string()),
        sender_avatar_url: None,
        is_sender_name_ambiguous: true,
        room_computed_display_name: "The Room".to_string(),
        room_avatar_url: Some("mxc://x/av".to_string()),
        room_canonical_alias: Some("#room:x".to_string()),
        room_join_rule: Some(JoinRule::Invite),
        joined_members_count: 12,
        is_room_encrypted: Some(true),
        is_direct_message_room: false,
        is_room_public: true,
        is_noisy: None,
        has_mention: Some(false),
        thread_id: Some("$thread".to_string()),
    };
    let shaped = NotificationItem::from_inner(item);
    assert!(matches!(shaped.event, NotificationEvent::Timeline { ref event } if event == "payload"));
    assert_eq!(shaped.sender_info.display_name.as_deref(), Some("Alice"));
    assert_eq!(shaped.sender_info.avatar_url, None);
    assert!(shaped.sender_info.is_name_ambiguous);
    assert_eq!(shaped.room_info.display_name, "The Room");
    assert_eq!(shaped.room_info.avatar_url.as_deref(), Some("mxc://x/av"));
    assert_eq!(shaped.room_info.canonical_alias.as_deref(), Some("#room:x"));
    assert!(matches!(shaped.room_info.join_rule, Some(JoinRule::Invite)));
    assert_eq!(shaped.room_info.joined_members_count, 12);
    assert_eq!(shaped.room_info.is_encrypted, Some(true));
    assert!(!shaped.room_info.is_direct);
    assert!(shaped.room_info.is_public);
    // Indeterminate noisiness stays indeterminate, it is not defaulted.
    assert_eq!(shaped.is_noisy, None);
    assert_eq!(shaped.has_mention, Some(false));
    assert_eq!(shaped.thread_id.as_deref(), Some("$thread"));

    let invite = SdkNotificationItem {
        event: SdkNotificationEvent::Invite { sender: "@them:x".to_string() },
        sender_display_name: None,
        sender_avatar_url: None,
        is_sender_name_ambiguous: false,
        room_computed_display_name: "R".to_string(),
        room_avatar_url: None,
        room_canonical_alias: None,
        room_join_rule: None,
        joined_members_count: 0,
        is_room_encrypted: None,
        is_direct_message_room: true,
        is_room_public: false,
        is_noisy: Some(true),
        has_mention: None,
        thread_id: None,
    };
    let shaped = NotificationItem::from_inner(invite);
    assert!(matches!(shaped.event, NotificationEvent::Invite { ref sender } if sender == "@them:x"));
    assert_eq!(shaped.is_noisy, Some(true));
}

#[test]
fn error_constructors() {
    let e = StoreError::backend("db closed".to_string());
    assert!(matches!(e, StoreError::Backend(ref m) if m == "db closed"));
    let c = ClientError::new("bad input".to_string());
    assert!(matches!(c, ClientError::Generic { ref msg } if msg == "bad input"));
    let v = StoreError::UnsupportedDatabaseVersion(1, 2);
    assert!(matches!(v, StoreError::UnsupportedDatabaseVersion(1, 2)));
}
