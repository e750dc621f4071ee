use std::cmp::Ordering;

use room_sync_core::rooms::{Room, RoomRecord, RoomState};
use room_sync_core::sc_room_list::{get_sc_sort_box, get_sort_by_vec};
use room_sync_core::schildi::ScSortOrder;
use room_sync_core::sorters::tag::{new_sorter as new_tag_sorter, room_to_tag_weight};
use room_sync_core::sorters::unread::{
    counts_to_unread_weight, new_sorter as new_unread_sorter, room_to_unread_weight,
};
use room_sync_core::sorters::{LexicographicSorter, Sorter};

fn room(id: &str, state: RoomState) -> Room {
    Room::restore("@me:example.org".to_string(), RoomRecord::new(id.to_string(), state))
}

fn room_with(id: &str, state: RoomState, f: impl FnOnce(&mut RoomRecord)) -> Room {
    let mut rec = RoomRecord::new(id.to_string(), state);
    f(&mut rec);
    Room::restore("@me:example.org".to_string(), rec)
}

#[test]
fn tag_weight_tiers() {
    let invited = room("!a:x", RoomState::Invited);
    let favourite = room_with("!b:x", RoomState::Joined, |r| r.is_favourite = true);
    let low = room_with("!c:x", RoomState::Joined, |r| r.is_low_priority = true);
    let plain = room("!d:x", RoomState::Joined);
    assert_eq!(room_to_tag_weight(&invited, true, true), 0);
    assert_eq!(room_to_tag_weight(&favourite, true, true), 1);
    assert_eq!(room_to_tag_weight(&low, true, true), 3);
    assert_eq!(room_to_tag_weight(&plain, true, true), 2);
    // With pinning and burying off, everything non-invited is middle tier.
    assert_eq!(room_to_tag_weight(&favourite, false, false), 2);
    assert_eq!(room_to_tag_weight(&low, false, false), 2);
    assert_eq!(room_to_tag_weight(&invited, false, false), 0);
}

#[test]
fn tag_matcher_orders_invites_first() {
    let invited = room("!a:x", RoomState::Invited);
    let plain = room("!d:x", RoomState::Joined);
    let m = new_tag_sorter(false, false);
    assert_eq!(m.matches(&invited, &plain), Ordering::Less);
    assert_eq!(m.matches(&plain, &invited), Ordering::Greater);
}

#[test]
fn tag_matcher_same_id_answers_greater() {
    // The documented self-comparison convention.
    let a1 = room("!a:x", RoomState::Invited);
    let a2 = room("!a:x", RoomState::Joined);
    let m = new_tag_sorter(true, true);
    assert_eq!(m.matches(&a1, &a2), Ordering::Greater);
    assert_eq!(m.matches(&a1, &a1), Ordering::Greater);
}

#[test]
fn counts_to_unread_weight_formula() {
    assert_eq!(counts_to_unread_weight(true, 0, 0, 0), 0);
    assert_eq!(counts_to_unread_weight(false, 1, 0, 0), 0);
    assert_eq!(counts_to_unread_weight(false, 0, 2, 0), 0);
    assert_eq!(counts_to_unread_weight(false, 0, 0, 3), 1);
    assert_eq!(counts_to_unread_weight(false, 0, 0, 0), 2);
}

#[test]
fn unread_weight_sources() {
    // Client-generated counts selected.
    let client_noisy = room_with("!a:x", RoomState::Joined, |r| {
        r.num_unread_notifications = 2;
    });
    assert_eq!(room_to_unread_weight(&client_noisy, true, false), 0);
    // Server-reported counts selected: the client count is ignored.
    assert_eq!(room_to_unread_weight(&client_noisy, false, false), 2);
    // Mentions always come from the client side, the server cannot count
    // inside encrypted rooms.
    let mentions_only = room_with("!b:x", RoomState::Joined, |r| {
        r.num_unread_mentions = 1;
    });
    assert_eq!(room_to_unread_weight(&mentions_only, false, false), 0);
    // Silent unread counts participate only when asked for.
    let silent = room_with("!c:x", RoomState::Joined, |r| {
        r.num_unread_messages = 5;
        r.unread_count = Some(4);
    });
    assert_eq!(room_to_unread_weight(&silent, true, false), 2);
    assert_eq!(room_to_unread_weight(&silent, true, true), 1);
    assert_eq!(room_to_unread_weight(&silent, false, true), 1);
}

#[test]
fn unread_matcher_ranks_unread_first() {
    let unread = room_with("!a:x", RoomState::Joined, |r| r.is_marked_unread = true);
    let read = room("!b:x", RoomState::Joined);
    let m = new_unread_sorter(true, false);
    assert_eq!(m.matches(&unread, &read), Ordering::Less);
    assert_eq!(m.matches(&read, &unread), Ordering::Greater);
}

#[test]
fn name_sorter_folds_case_and_falls_back_to_id() {
    let alpha = room_with("!b:x", RoomState::Joined, |r| {
        r.display_name = Some("alpha".to_string())
    });
    let beta = room_with("!a:x", RoomState::Joined, |r| {
        r.display_name = Some("Beta".to_string())
    });
    let lex = LexicographicSorter { sorters: vec![Sorter::Name] };
    assert_eq!(lex.cmp(&alpha, &beta), Ordering::Less);
    assert_eq!(lex.cmp(&beta, &alpha), Ordering::Greater);
    // A proper prefix sorts before its extensions.
    let al = room_with("!c:x", RoomState::Joined, |r| {
        r.display_name = Some("al".to_string())
    });
    assert_eq!(lex.cmp(&al, &alpha), Ordering::Less);
    // Without a name, the id is the deterministic fall-back.
    let unnamed_a = room("!a:x", RoomState::Joined);
    let unnamed_b = room("!b:x", RoomState::Joined);
    assert_eq!(lex.cmp(&unnamed_a, &unnamed_b), Ordering::Less);
}

#[test]
fn recency_sorter_puts_most_recent_first() {
    let older = room_with("!a:x", RoomState::Joined, |r| r.recency_stamp = 10);
    let newer = room_with("!b:x", RoomState::Joined, |r| r.recency_stamp = 20);
    let lex = LexicographicSorter { sorters: vec![Sorter::Recency] };
    assert_eq!(lex.cmp(&newer, &older), Ordering::Less);
    assert_eq!(lex.cmp(&older, &newer), Ordering::Greater);
}

#[test]
fn latest_event_sorter_puts_local_echo_first() {
    let local = room_with("!a:x", RoomState::Joined, |r| r.has_local_latest_event = true);
    let remote = room("!b:x", RoomState::Joined);
    let lex = LexicographicSorter { sorters: vec![Sorter::LatestEvent] };
    assert_eq!(lex.cmp(&local, &remote), Ordering::Less);
}

#[test]
fn sort_by_vec_composition() {
    let order = ScSortOrder {
        by_unread: true,
        pin_favorites: true,
        bury_low_priority: false,
        client_generated_unread: true,
        with_silent_unread: false,
    };
    let sorters = get_sort_by_vec(order, false);
    assert_eq!(sorters.len(), 4);
    assert!(matches!(sorters[0], Sorter::Tag(_)));
    assert!(matches!(sorters[1], Sorter::Unread(_)));
    assert!(matches!(sorters[2], Sorter::Recency));
    assert!(matches!(sorters[3], Sorter::Name));

    let mut plain = order;
    plain.by_unread = false;
    let sorters = get_sort_by_vec(plain, true);
    assert_eq!(sorters.len(), 4);
    assert!(matches!(sorters[0], Sorter::Tag(_)));
    assert!(matches!(sorters[1], Sorter::LatestEvent));
    assert!(matches!(sorters[2], Sorter::Recency));
    assert!(matches!(sorters[3], Sorter::Name));
}

#[test]
fn sort_box_and_from_agree() {
    let order = ScSortOrder {
        by_unread: true,
        pin_favorites: false,
        bury_low_priority: true,
        client_generated_unread: false,
        with_silent_unread: true,
    };
    let a = get_sc_sort_box(order, false);
    let b: LexicographicSorter = order.into();
    assert_eq!(a.sorters.len(), b.sorters.len());
    let left = room_with("!a:x", RoomState::Joined, |r| r.recency_stamp = 3);
    let right = room_with("!b:x", RoomState::Invited, |r| r.recency_stamp = 9);
    assert_eq!(a.cmp(&left, &right), b.cmp(&left, &right));
    assert_eq!(a.cmp(&left, &right), Ordering::Greater);
}

#[test]
fn lexicographic_first_decisive_criterion_wins() {
    // Same tag tier, different unread tier: the unread criterion decides.
    let unread = room_with("!a:x", RoomState::Joined, |r| {
        r.is_marked_unread = true;
        r.recency_stamp = 1;
    });
    let read = room_with("!b:x", RoomState::Joined, |r| r.recency_stamp = 99);
    let order = ScSortOrder {
        by_unread: true,
        pin_favorites: true,
        bury_low_priority: true,
        client_generated_unread: true,
        with_silent_unread: false,
    };
    let lex = get_sc_sort_box(order, false);
    assert_eq!(lex.cmp(&unread, &read), Ordering::Less);
}
