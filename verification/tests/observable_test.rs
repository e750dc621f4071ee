use room_sync_core::observable_map::{ObservableMap, RoomListDiff};
use room_sync_core::rooms::{Room, RoomRecord, RoomState};

fn room_with(id: &str, stamp: u64) -> Room {
    let mut rec = RoomRecord::new(id.to_string(), RoomState::Joined);
    rec.recency_stamp = stamp;
    Room::restore("@me:example.org".to_string(), rec)
}

fn replay(mut baseline: Vec<Room>, diffs: &[RoomListDiff]) -> Vec<Room> {
    for d in diffs {
        match d {
            RoomListDiff::Insert { index, room } => baseline.insert(*index, room.clone()),
            RoomListDiff::Replace { index, room } => baseline[*index] = room.clone(),
            RoomListDiff::Remove { index } => {
                baseline.remove(*index);
            },
        }
    }
    baseline
}

fn ids_and_stamps(rooms: &[Room]) -> Vec<(String, u64)> {
    rooms.iter().map(|r| (r.room_id().clone(), r.recency_stamp())).collect()
}

/// Diff-stream replay: capturing the sequence and the diff stream, then
/// replaying the diffs onto the baseline, reconstructs the sequence that
/// direct mutation produced.
#[test]
fn replaying_diffs_reconstructs_the_sequence() {
    let mut table = ObservableMap::new();
    table.insert(room_with("!a:x", 1));

    // Subscribe after the first mutation: the baseline is the current
    // sequence, diffs follow from the cursor.
    let (baseline, cursor) = table.stream();
    assert_eq!(baseline.len(), 1);

    table.insert(room_with("!b:x", 2));
    table.insert(room_with("!a:x", 3));  // in-place replacement
    table.insert(room_with("!c:x", 4));
    table.remove(&"!b:x".to_string());
    // Removing an absent id logs nothing.
    table.remove(&"!nope:x".to_string());

    let (diffs, new_cursor) = table.diffs_since(cursor);
    assert_eq!(diffs.len(), 4);
    assert!(matches!(diffs[0], RoomListDiff::Insert { index: 1, .. }));
    assert!(matches!(diffs[1], RoomListDiff::Replace { index: 0, .. }));
    assert!(matches!(diffs[2], RoomListDiff::Insert { index: 2, .. }));
    assert!(matches!(diffs[3], RoomListDiff::Remove { index: 1 }));

    let replayed = replay(baseline, &diffs);
    assert_eq!(ids_and_stamps(&replayed), ids_and_stamps(&table.snapshot()));
    assert_eq!(
        ids_and_stamps(&replayed),
        vec![("!a:x".to_string(), 3), ("!c:x".to_string(), 4)]
    );

    // A later subscriber starts from the full current sequence and sees
    // no earlier diff.
    let (late_baseline, late_cursor) = table.stream();
    assert_eq!(late_cursor, new_cursor);
    assert_eq!(ids_and_stamps(&late_baseline), ids_and_stamps(&table.snapshot()));
    let (later_diffs, _) = table.diffs_since(late_cursor);
    assert!(later_diffs.is_empty());
}

#[test]
fn lookup_and_len() {
    let mut table = ObservableMap::new();
    assert_eq!(table.len(), 0);
    table.insert(room_with("!a:x", 1));
    assert_eq!(table.len(), 1);
    assert!(table.get(&"!a:x".to_string()).is_some());
    assert!(table.get(&"!b:x".to_string()).is_none());
    let removed = table.remove(&"!a:x".to_string()).unwrap();
    assert_eq!(removed.room_id(), "!a:x");
    assert_eq!(table.len(), 0);
}
