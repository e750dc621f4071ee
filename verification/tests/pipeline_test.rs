use room_sync_core::filters::{is_space, sc_rooms, matches_all};
use room_sync_core::observable_map::RoomListDiff;
use room_sync_core::pipeline::RoomListPipeline;
use room_sync_core::rooms::{Room, RoomRecord, RoomState};
use room_sync_core::sc_room_list::get_sc_sort_box;
use room_sync_core::schildi::ScSortOrder;
use room_sync_core::sorters::new_sorter_lexicographic;

fn room_with(id: &str, state: RoomState, f: impl FnOnce(&mut RoomRecord)) -> Room {
    let mut rec = RoomRecord::new(id.to_string(), state);
    f(&mut rec);
    Room::restore("@me:example.org".to_string(), rec)
}

fn ids(rooms: &[Room]) -> Vec<String> {
    rooms.iter().map(|r| r.room_id().clone()).collect()
}

#[test]
fn space_filter_keeps_only_spaces() {
    let space = room_with("!s:x", RoomState::Joined, |r| r.is_space = true);
    let plain = room_with("!p:x", RoomState::Joined, |_| {});
    let f = is_space::new_filter();
    assert!(f.matches(&space));
    assert!(!f.matches(&plain));
}

#[test]
fn sc_rooms_filter_keeps_only_listed_ids() {
    let listed = room_with("!one:x", RoomState::Joined, |_| {});
    let other = room_with("!two:x", RoomState::Joined, |_| {});
    let f = sc_rooms::new_filter(vec!["!one:x".to_string(), "!three:x".to_string()]);
    assert!(f.matches(&listed));
    assert!(!f.matches(&other));
    assert!(matches_all(&vec![], &other));
    assert!(!matches_all(&vec![f], &other));
}

/// Scenario: room A (joined, unread), room B (invited), room C (joined,
/// favourite, read), with favourites pinned and unread sorting on, comes
/// out as B, C, A.
#[test]
fn three_rooms_sort_as_b_c_a() {
    let a = room_with("!a:x", RoomState::Joined, |r| {
        r.display_name = Some("A".to_string());
        r.unread_count = Some(3);
        r.num_unread_messages = 3;
    });
    let b = room_with("!b:x", RoomState::Invited, |r| {
        r.display_name = Some("B".to_string());
    });
    let c = room_with("!c:x", RoomState::Joined, |r| {
        r.display_name = Some("C".to_string());
        r.is_favourite = true;
    });
    let order = ScSortOrder {
        by_unread: true,
        pin_favorites: true,
        bury_low_priority: false,
        client_generated_unread: true,
        with_silent_unread: true,
    };
    let sorter = get_sc_sort_box(order, false);
    let p = RoomListPipeline::new(vec![], sorter, vec![a, b, c]);
    assert_eq!(ids(&p.current()), vec!["!b:x", "!c:x", "!a:x"]);
}

/// Sort stability: two rooms identical under every criterion keep their
/// relative order, also when one of them is re-delivered unchanged.
#[test]
fn equal_rooms_keep_arrival_order() {
    let twin = |id: &str| {
        room_with(id, RoomState::Joined, |r| {
            r.display_name = Some("same".to_string());
            r.recency_stamp = 7;
        })
    };
    let order = ScSortOrder {
        by_unread: true,
        pin_favorites: true,
        bury_low_priority: true,
        client_generated_unread: true,
        with_silent_unread: true,
    };
    let p = RoomListPipeline::new(vec![], get_sc_sort_box(order, false), vec![
        twin("!first:x"),
        twin("!second:x"),
    ]);
    assert_eq!(ids(&p.current()), vec!["!first:x", "!second:x"]);
    // Re-sort the unchanged output: the equal pair does not thrash.
    let again = RoomListPipeline::new(vec![], get_sc_sort_box(order, false), p.current());
    assert_eq!(ids(&again.current()), vec!["!first:x", "!second:x"]);
}

#[test]
fn pipeline_follows_diffs_and_republishes() {
    let order = ScSortOrder {
        by_unread: false,
        pin_favorites: false,
        bury_low_priority: false,
        client_generated_unread: false,
        with_silent_unread: false,
    };
    let sorter = get_sc_sort_box(order, false);
    let space = |id: &str, stamp: u64| {
        room_with(id, RoomState::Joined, |r| {
            r.is_space = true;
            r.recency_stamp = stamp;
        })
    };
    let plain = room_with("!p:x", RoomState::Joined, |_| {});
    let mut p = RoomListPipeline::new(
        vec![is_space::new_filter()],
        sorter,
        vec![space("!s1:x", 10), plain],
    );
    assert_eq!(ids(&p.current()), vec!["!s1:x"]);

    // A filtered-out insert emits nothing.
    let out = p.handle_diff(&RoomListDiff::Insert {
        index: 2,
        room: room_with("!q:x", RoomState::Joined, |_| {}),
    });
    assert!(out.is_empty());
    assert_eq!(ids(&p.current()), vec!["!s1:x"]);

    // A passing insert lands at its sorted position.
    let out = p.handle_diff(&RoomListDiff::Insert { index: 3, room: space("!s2:x", 20) });
    assert_eq!(out.len(), 1);
    assert!(matches!(out[0], RoomListDiff::Insert { index: 0, .. }));
    assert_eq!(ids(&p.current()), vec!["!s2:x", "!s1:x"]);

    // An update may move the room.
    let out = p.handle_diff(&RoomListDiff::Replace { index: 0, room: space("!s1:x", 30) });
    assert_eq!(out.len(), 2);
    assert_eq!(ids(&p.current()), vec!["!s1:x", "!s2:x"]);

    // A removal of a projected room drops it.
    let out = p.handle_diff(&RoomListDiff::Remove { index: 0 });
    assert_eq!(out.len(), 1);
    assert!(matches!(out[0], RoomListDiff::Remove { index: 0 }));
    assert_eq!(ids(&p.current()), vec!["!s2:x"]);

    // A removal of a filtered-out room emits nothing.
    let out = p.handle_diff(&RoomListDiff::Remove { index: 0 });
    assert!(out.is_empty());
    assert_eq!(ids(&p.current()), vec!["!s2:x"]);
}

#[test]
fn replace_can_change_filter_membership() {
    let order = ScSortOrder {
        by_unread: false,
        pin_favorites: false,
        bury_low_priority: false,
        client_generated_unread: false,
        with_silent_unread: false,
    };
    let sorter = new_sorter_lexicographic(get_sc_sort_box(order, false).sorters);
    let plain = room_with("!r:x", RoomState::Joined, |_| {});
    let mut p = RoomListPipeline::new(vec![is_space::new_filter()], sorter, vec![plain]);
    assert!(p.current().is_empty());
    let as_space = room_with("!r:x", RoomState::Joined, |r| r.is_space = true);
    let out = p.handle_diff(&RoomListDiff::Replace { index: 0, room: as_space });
    assert_eq!(out.len(), 1);
    assert_eq!(ids(&p.current()), vec!["!r:x"]);
}
