use room_sync_core::changes::{StateChanges, StateEvent};
use room_sync_core::memory_store::MemoryStore;
use room_sync_core::rooms::{RoomRecord, RoomState, RoomStateFilter};
use room_sync_core::store::{BaseStateStore, SessionMeta};
use room_sync_core::traits::StateStore;

fn meta() -> SessionMeta {
    SessionMeta { user_id: "@me:example.org".to_string(), device_id: "DEVICE".to_string() }
}

fn record(id: &str, state: RoomState) -> RoomRecord {
    RoomRecord::new(id.to_string(), state)
}

fn sorted_ids(store: &MemoryStore) -> Vec<String> {
    let mut ids: Vec<String> = store
        .get_room_records()
        .unwrap()
        .iter()
        .map(|r| r.room_id.clone())
        .collect();
    ids.sort();
    ids
}

/// Last-write-wins law on a concrete pair of batches: applying B1 then B2
/// to an empty store leaves the same room set as applying the single
/// merged batch where B2 overrides B1.
#[test]
fn two_batches_equal_one_merged_batch() {
    let make_b1 = || {
        let mut b = StateChanges::new("t1".to_string());
        let mut a = record("!a:x", RoomState::Joined);
        a.recency_stamp = 1;
        b.add_room(a);
        b.add_room(record("!b:x", RoomState::Invited));
        b.add_receipts(&"!a:x".to_string(), "r1".to_string());
        b
    };
    let make_b2 = || {
        let mut b = StateChanges::new("t2".to_string());
        let mut a = record("!a:x", RoomState::Left);
        a.recency_stamp = 9;
        b.add_room(a);
        b.add_room(record("!c:x", RoomState::Joined));
        b
    };

    let mut sequential = MemoryStore::new();
    sequential.save_changes(make_b1()).unwrap();
    sequential.save_changes(make_b2()).unwrap();

    let mut merged_batch = make_b1();
    merged_batch.merge_from(make_b2());
    let mut merged = MemoryStore::new();
    merged.save_changes(merged_batch).unwrap();

    assert_eq!(sorted_ids(&sequential), vec!["!a:x", "!b:x", "!c:x"]);
    assert_eq!(sorted_ids(&sequential), sorted_ids(&merged));
    // The colliding record carries B2's values in both stores.
    for store in [&sequential, &merged] {
        let a = store
            .get_room_records()
            .unwrap()
            .into_iter()
            .find(|r| r.room_id == "!a:x")
            .unwrap();
        assert_eq!(a.recency_stamp, 9);
        assert!(matches!(a.state, RoomState::Left));
    }
}

/// Idempotent forget: forgetting a room id that nothing knows is a no-op,
/// not an error.
#[test]
fn forget_nonexistent_room_is_noop() {
    let mut store = BaseStateStore::new(MemoryStore::new());
    store.set_or_reload_session(meta()).unwrap();
    let room = store.get_or_create_room(&"!kept:x".to_string(), RoomState::Joined);
    assert_eq!(room.room_id(), "!kept:x");
    assert!(store.forget_room(&"!missing:x".to_string()).is_ok());
    assert_eq!(store.rooms().len(), 1);
    // Forgetting a known room removes it from the table.
    assert!(store.forget_room(&"!kept:x".to_string()).is_ok());
    assert!(store.rooms().is_empty());
    assert!(!store.room_exists(&"!kept:x".to_string()));
}

/// Redaction tolerance: a redaction naming an event nowhere in the store
/// is applied without error; once a later batch introduces the event, the
/// room holds it in redacted state.
#[test]
fn redaction_of_missing_event_applies_and_sticks() {
    let room_id = "!r:x".to_string();
    let mut store = MemoryStore::new();

    let mut early = StateChanges::new("t1".to_string());
    early.add_redaction(&room_id, &"$missing".to_string(), "redaction-payload".to_string());
    assert!(store.save_changes(early).is_ok());
    assert!(store.get_state_event(&room_id, &"m.room.topic".to_string(), &"".to_string())
        .is_none());

    let mut later = StateChanges::new("t2".to_string());
    later.add_state_event(
        &room_id,
        "m.room.topic".to_string(),
        "".to_string(),
        StateEvent {
            event_id: "$missing".to_string(),
            sender: "@them:x".to_string(),
            content: "the topic".to_string(),
        },
    );
    assert!(store.save_changes(later).is_ok());

    let (event, redacted) = store
        .get_state_event(&room_id, &"m.room.topic".to_string(), &"".to_string())
        .unwrap();
    assert_eq!(event.event_id, "$missing");
    assert!(redacted);

    // An untargeted event is not redacted.
    let mut other = StateChanges::new("t3".to_string());
    other.add_state_event(
        &room_id,
        "m.room.name".to_string(),
        "".to_string(),
        StateEvent {
            event_id: "$name".to_string(),
            sender: "@them:x".to_string(),
            content: "a name".to_string(),
        },
    );
    store.save_changes(other).unwrap();
    let (_, redacted) = store
        .get_state_event(&room_id, &"m.room.name".to_string(), &"".to_string())
        .unwrap();
    assert!(!redacted);
}

/// Session start restores rooms from persisted records, migrates old
/// record formats, and reads the synchronization cursor back.
#[test]
fn session_start_restores_and_migrates() {
    let mut backend = MemoryStore::new();
    let mut setup = StateChanges::new("restored-token".to_string());
    let mut old_format = record("!old:x", RoomState::Joined);
    old_format.version = 0;
    old_format.notification_count = 7;
    old_format.highlight_count = 2;
    old_format.unread_count = Some(11);
    setup.add_room(old_format);
    setup.add_room(record("!new:x", RoomState::Invited));
    backend.save_changes(setup).unwrap();

    let mut store = BaseStateStore::new(backend);
    assert!(store.session_meta().is_none());
    store.set_or_reload_session(meta()).unwrap();

    assert_eq!(store.session_meta().unwrap().user_id, "@me:example.org");
    assert_eq!(store.sync_token().as_deref(), Some("restored-token"));
    assert_eq!(store.rooms().len(), 2);

    let migrated = store.room(&"!old:x".to_string()).unwrap();
    let rec = migrated.record();
    // The migration seeded the client-computed counters from the
    // server-reported ones and lifted the version.
    assert_eq!(rec.num_unread_notifications, 7);
    assert_eq!(rec.num_unread_mentions, 2);
    assert_eq!(rec.num_unread_messages, 11);
    assert!(rec.version > 0);
    assert_eq!(migrated.own_user_id(), "@me:example.org");

    // The migrated shape was re-persisted, so the next start does not
    // migrate again.
    let persisted = store
        .inner()
        .get_room_records()
        .unwrap()
        .into_iter()
        .find(|r| r.room_id == "!old:x")
        .unwrap();
    assert!(persisted.version > 0);
    assert_eq!(persisted.num_unread_notifications, 7);
}

/// Applying a batch is serialized, updates the live table, and advances the
/// cursor only on success.
#[test]
fn apply_changes_updates_table_and_cursor() {
    let mut store = BaseStateStore::new(MemoryStore::new());
    store.set_or_reload_session(meta()).unwrap();
    assert!(store.sync_token().is_none());

    assert!(store.sync_lock());
    // The latch is exclusive: a second taker does not get it.
    assert!(!store.sync_lock());

    let mut batch = StateChanges::new("cursor-1".to_string());
    let mut rec = record("!live:x", RoomState::Joined);
    rec.is_favourite = true;
    batch.add_room(rec);
    store.apply_state_changes(batch).unwrap();
    store.sync_unlock();

    assert_eq!(store.sync_token().as_deref(), Some("cursor-1"));
    let room = store.room(&"!live:x".to_string()).unwrap();
    assert!(room.is_favourite());
    // The batch was durably applied too.
    assert_eq!(store.inner().get_room_records().unwrap().len(), 1);
}

#[test]
fn rooms_filtered_by_membership() {
    let mut store = BaseStateStore::new(MemoryStore::new());
    store.set_or_reload_session(meta()).unwrap();
    store.get_or_create_room(&"!j:x".to_string(), RoomState::Joined);
    store.get_or_create_room(&"!i:x".to_string(), RoomState::Invited);
    store.get_or_create_room(&"!l:x".to_string(), RoomState::Left);

    let only_invited = RoomStateFilter {
        invited: true,
        joined: false,
        left: false,
        knocked: false,
        banned: false,
    };
    let invited = store.rooms_filtered(only_invited);
    assert_eq!(invited.len(), 1);
    assert_eq!(invited[0].room_id(), "!i:x");
    assert_eq!(store.rooms_filtered(RoomStateFilter::all()).len(), 3);
}

#[test]
fn get_or_create_returns_existing_room_unchanged() {
    let mut store = BaseStateStore::new(MemoryStore::new());
    store.set_or_reload_session(meta()).unwrap();
    let first = store.get_or_create_room(&"!a:x".to_string(), RoomState::Invited);
    assert!(matches!(first.state(), RoomState::Invited));
    // The second call hands the existing room back, never overwrites it.
    let second = store.get_or_create_room(&"!a:x".to_string(), RoomState::Joined);
    assert!(matches!(second.state(), RoomState::Invited));
    assert_eq!(store.rooms().len(), 1);
}

#[test]
fn reload_session_from_other_store() {
    let mut source = BaseStateStore::new(MemoryStore::new());
    source.set_or_reload_session(meta()).unwrap();

    let mut fresh = BaseStateStore::new(MemoryStore::new());
    fresh.set_or_reload_session_from_other(&source).unwrap();
    assert_eq!(fresh.session_meta().unwrap().user_id, "@me:example.org");

    // A source without a session identity makes it a no-op.
    let empty_source = BaseStateStore::new(MemoryStore::new());
    let mut other = BaseStateStore::new(MemoryStore::new());
    other.set_or_reload_session_from_other(&empty_source).unwrap();
    assert!(other.session_meta().is_none());
}
