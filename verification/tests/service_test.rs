use room_sync_core::changes::StateChanges;
use room_sync_core::memory_store::MemoryStore;
use room_sync_core::pipeline::RoomListPipeline;
use room_sync_core::rooms::{Room, RoomRecord, RoomState};
use room_sync_core::sc_room_list::get_sc_sort_box;
use room_sync_core::schildi::ScSortOrder;
use room_sync_core::store::{BaseStateStore, SessionMeta};

fn meta() -> SessionMeta {
    SessionMeta { user_id: "@me:example.org".to_string(), device_id: "DEVICE".to_string() }
}

fn record(id: &str, stamp: u64) -> RoomRecord {
    let mut rec = RoomRecord::new(id.to_string(), RoomState::Joined);
    rec.recency_stamp = stamp;
    rec
}

fn ids(rooms: &[Room]) -> Vec<String> {
    rooms.iter().map(|r| r.room_id().clone()).collect()
}

/// The full flow: batches are applied under the latch, the table emits
/// diffs, and a pipeline following those diffs republishes the live,
/// sorted projection.
#[test]
fn pipeline_follows_the_store_diff_stream() {
    let mut store = BaseStateStore::new(MemoryStore::new());
    store.set_or_reload_session(meta()).unwrap();

    let mut first = StateChanges::new("t1".to_string());
    first.add_room(record("!a:x", 10));
    first.add_room(record("!b:x", 20));
    assert!(store.sync_lock());
    store.apply_state_changes(first).unwrap();
    store.sync_unlock();

    // Subscribe after the first cycle: the baseline carries both rooms.
    let (baseline, cursor) = store.rooms_stream();
    let order = ScSortOrder {
        by_unread: false,
        pin_favorites: false,
        bury_low_priority: false,
        client_generated_unread: false,
        with_silent_unread: false,
    };
    let mut pipeline = RoomListPipeline::new(vec![], get_sc_sort_box(order, false), baseline);
    assert_eq!(ids(&pipeline.current()), vec!["!b:x", "!a:x"]);

    // A second cycle bumps one room and brings a new one; a forget drops
    // another.
    let mut second = StateChanges::new("t2".to_string());
    second.add_room(record("!a:x", 30));
    second.add_room(record("!c:x", 25));
    assert!(store.sync_lock());
    store.apply_state_changes(second).unwrap();
    store.sync_unlock();
    store.forget_room(&"!b:x".to_string()).unwrap();

    let (diffs, _) = store.rooms_diffs_since(cursor);
    for diff in &diffs {
        pipeline.handle_diff(diff);
    }

    assert_eq!(ids(&pipeline.current()), vec!["!a:x", "!c:x"]);
    // The projection holds exactly the table's rooms, re-ordered.
    let mut table_ids = ids(&store.rooms());
    table_ids.sort();
    let mut projection_ids = ids(&pipeline.current());
    projection_ids.sort();
    assert_eq!(table_ids, projection_ids);
    assert_eq!(store.sync_token().as_deref(), Some("t2"));
}
