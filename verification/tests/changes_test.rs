use room_sync_core::changes::{StateChanges, StateEvent};
use room_sync_core::memory_store::MemoryStore;
use room_sync_core::rooms::{RoomRecord, RoomState};
use room_sync_core::schildi::{ScInboxSettings, ScSortOrder};
use room_sync_core::traits::StateStore;

fn ev(id: &str, content: &str) -> StateEvent {
    StateEvent {
        event_id: id.to_string(),
        sender: "@them:x".to_string(),
        content: content.to_string(),
    }
}

/// Within one batch, a second value under the same composite key
/// overwrites the first: batches are end-state snapshots, not logs.
#[test]
fn last_write_wins_within_a_batch() {
    let room = "!r:x".to_string();
    let mut batch = StateChanges::new("t".to_string());
    batch.add_state_event(&room, "m.room.topic".to_string(), "".to_string(), ev("$one", "old"));
    batch.add_state_event(&room, "m.room.topic".to_string(), "".to_string(), ev("$two", "new"));

    let mut store = MemoryStore::new();
    store.save_changes(batch).unwrap();
    let (event, _) = store
        .get_state_event(&room, &"m.room.topic".to_string(), &"".to_string())
        .unwrap();
    assert_eq!(event.event_id, "$two");
    assert_eq!(event.content, "new");
}

#[test]
fn distinct_composite_keys_do_not_collide() {
    let room = "!r:x".to_string();
    let mut batch = StateChanges::new("t".to_string());
    batch.add_state_event(&room, "m.room.member".to_string(), "@a:x".to_string(), ev("$a", "a"));
    batch.add_state_event(&room, "m.room.member".to_string(), "@b:x".to_string(), ev("$b", "b"));
    batch.add_state_event(&room, "m.room.topic".to_string(), "".to_string(), ev("$t", "t"));

    let mut store = MemoryStore::new();
    store.save_changes(batch).unwrap();
    for (ty, key, id) in [
        ("m.room.member", "@a:x", "$a"),
        ("m.room.member", "@b:x", "$b"),
        ("m.room.topic", "", "$t"),
    ] {
        let (event, _) = store
            .get_state_event(&room, &ty.to_string(), &key.to_string())
            .unwrap();
        assert_eq!(event.event_id, id);
    }
}

#[test]
fn stripped_members_and_receipts_accumulate() {
    let room = "!r:x".to_string();
    let mut batch = StateChanges::new("t".to_string());
    batch.add_stripped_member(&room, &"@a:x".to_string(), ev("$m", "join"));
    batch.add_receipts(&room, "receipt-1".to_string());
    batch.add_receipts(&room, "receipt-2".to_string());
    batch.add_presence_event("@a:x".to_string(), "online".to_string());
    batch.add_room_account_data(&room, "m.tag".to_string(), "tags".to_string());
    let mut store = MemoryStore::new();
    // The whole batch applies without error.
    assert!(store.save_changes(batch).is_ok());
}

#[test]
fn add_room_keys_by_room_id() {
    let mut batch = StateChanges::new_without_token();
    let mut rec = RoomRecord::new("!a:x".to_string(), RoomState::Joined);
    rec.recency_stamp = 5;
    batch.add_room(rec);
    let mut replaced = RoomRecord::new("!a:x".to_string(), RoomState::Left);
    replaced.recency_stamp = 6;
    batch.add_room(replaced);
    let mut store = MemoryStore::new();
    store.save_changes(batch).unwrap();
    let records = store.get_room_records().unwrap();
    assert_eq!(records.len(), 1);
    assert_eq!(records[0].recency_stamp, 6);
    assert!(matches!(records[0].state, RoomState::Left));
}

#[test]
fn merge_takes_the_later_sync_token() {
    let mut first = StateChanges::new("t1".to_string());
    first.add_receipts(&"!a:x".to_string(), "r".to_string());
    let second = StateChanges::new("t2".to_string());
    first.merge_from(second);
    let mut store = MemoryStore::new();
    store.save_changes(first).unwrap();
    let token = store.get_kv(&"sync_token".to_string()).unwrap();
    assert_eq!(token.as_deref(), Some("t2"));

    // A later batch without a token keeps the earlier one.
    let mut with_token = StateChanges::new("t3".to_string());
    with_token.merge_from(StateChanges::new_without_token());
    let mut store = MemoryStore::new();
    store.save_changes(with_token).unwrap();
    let token = store.get_kv(&"sync_token".to_string()).unwrap();
    assert_eq!(token.as_deref(), Some("t3"));
}

#[test]
fn kv_round_trip() {
    let mut store = MemoryStore::new();
    assert!(store.get_kv(&"filter".to_string()).unwrap().is_none());
    store.set_kv("filter".to_string(), "abc".to_string()).unwrap();
    assert_eq!(store.get_kv(&"filter".to_string()).unwrap().as_deref(), Some("abc"));
    store.set_kv("filter".to_string(), "def".to_string()).unwrap();
    assert_eq!(store.get_kv(&"filter".to_string()).unwrap().as_deref(), Some("def"));
}

#[test]
fn inbox_settings_defaults_are_off() {
    let settings = ScInboxSettings::default();
    assert!(!settings.sort_order.by_unread);
    assert!(!settings.sort_order.pin_favorites);
    assert!(!settings.sort_order.bury_low_priority);
    assert!(!settings.sort_order.client_generated_unread);
    assert!(!settings.sort_order.with_silent_unread);
    let order = ScSortOrder::default();
    assert_eq!(order, settings.sort_order);
}

/// Re-applying the same batch — as a crash-and-retry can cause — is
/// idempotent.
#[test]
fn reapplying_a_batch_changes_nothing() {
    let make = || {
        let mut b = StateChanges::new("t".to_string());
        b.add_room(RoomRecord::new("!a:x".to_string(), RoomState::Joined));
        b.add_redaction(&"!a:x".to_string(), &"$gone".to_string(), "r".to_string());
        b
    };
    let mut once = MemoryStore::new();
    once.save_changes(make()).unwrap();
    let mut twice = MemoryStore::new();
    twice.save_changes(make()).unwrap();
    twice.save_changes(make()).unwrap();
    let a = once.get_room_records().unwrap();
    let b = twice.get_room_records().unwrap();
    assert_eq!(a.len(), b.len());
    assert_eq!(a[0].room_id, b[0].room_id);
    assert_eq!(
        once.get_kv(&"sync_token".to_string()).unwrap(),
        twice.get_kv(&"sync_token".to_string()).unwrap()
    );
}
