use room_sync_core::room_info::{Membership, RoomInfo};
use room_sync_core::rooms::{EncryptionState, JoinRule, Room, RoomRecord, RoomState};
use room_sync_core::space_child_info::{space_children_info, SpaceChildEvent, SpaceChildInfo};

fn child(id: &str, redacted: bool, via: &[&str], suggested: bool) -> SpaceChildEvent {
    SpaceChildEvent {
        room_id: id.to_string(),
        redacted,
        via: via.iter().map(|v| v.to_string()).collect(),
        order: None,
        suggested,
    }
}

#[test]
fn space_children_skip_redacted_and_unrouted() {
    let mut rec = RoomRecord::new("!space:x".to_string(), RoomState::Joined);
    rec.is_space = true;
    rec.space_children = vec![
        child("!kept:x", false, &["example.org"], true),
        // Replaced by an empty state event: no original content is left.
        child("!redacted:x", true, &["example.org"], false),
        // The protocol specification asks to ignore children without a
        // routing server.
        child("!unrouted:x", false, &[], false),
    ];
    let room = Room::restore("@me:example.org".to_string(), rec);
    let infos = space_children_info(&room);
    assert_eq!(infos.len(), 1);
    assert_eq!(infos[0].room_id, "!kept:x");
    assert!(infos[0].suggested);

    // A room that is not a space has no children, whatever its state
    // events hold.
    let mut rec = RoomRecord::new("!plain:x".to_string(), RoomState::Joined);
    rec.space_children = vec![child("!kept:x", false, &["example.org"], true)];
    let room = Room::restore("@me:example.org".to_string(), rec);
    assert!(space_children_info(&room).is_empty());
}

#[test]
fn space_child_info_new_bundles_fields() {
    let info = SpaceChildInfo::new("!c:x".to_string(), Some("aaa".to_string()), true);
    assert_eq!(info.room_id, "!c:x");
    assert_eq!(info.order.as_deref(), Some("aaa"));
    assert!(info.suggested);
}

#[test]
fn room_info_projects_the_record() {
    let mut rec = RoomRecord::new("!info:x".to_string(), RoomState::Invited);
    rec.encryption_state = EncryptionState::Encrypted;
    rec.creator = Some("@creator:x".to_string());
    rec.display_name = Some("Nice room".to_string());
    rec.raw_name = Some("raw".to_string());
    rec.topic = Some("topic".to_string());
    rec.canonical_alias = Some("#nice:x".to_string());
    rec.alternative_aliases = vec!["#alt:x".to_string()];
    rec.is_direct = true;
    rec.is_public = true;
    rec.is_favourite = true;
    rec.notification_count = 4;
    rec.highlight_count = 1;
    rec.unread_count = Some(6);
    rec.num_unread_messages = 2;
    rec.num_unread_notifications = 3;
    rec.num_unread_mentions = 1;
    rec.is_marked_unread = true;
    rec.joined_members_count = 10;
    rec.invited_members_count = 2;
    rec.active_members_count = 12;
    rec.pinned_event_ids = vec!["$pinned".to_string()];
    rec.join_rule = Some(JoinRule::Knock);
    rec.is_space = true;
    rec.can_user_manage_spaces = true;
    rec.space_children = vec![SpaceChildEvent {
        room_id: "!c:x".to_string(),
        redacted: false,
        via: vec!["example.org".to_string()],
        order: Some("01".to_string()),
        suggested: false,
    }];
    let room = Room::restore("@me:example.org".to_string(), rec);

    let info = RoomInfo::new(&room).unwrap();
    assert_eq!(info.id, "!info:x");
    assert!(matches!(info.encryption_state, EncryptionState::Encrypted));
    assert_eq!(info.creator.as_deref(), Some("@creator:x"));
    assert_eq!(info.display_name.as_deref(), Some("Nice room"));
    assert_eq!(info.raw_name.as_deref(), Some("raw"));
    assert_eq!(info.topic.as_deref(), Some("topic"));
    assert_eq!(info.canonical_alias.as_deref(), Some("#nice:x"));
    assert_eq!(info.alternative_aliases, vec!["#alt:x".to_string()]);
    assert!(matches!(info.membership, Membership::Invited));
    assert!(info.is_direct && info.is_public && info.is_favourite);
    assert!(!info.is_low_priority);
    assert_eq!(info.notification_count, 4);
    assert_eq!(info.highlight_count, 1);
    assert_eq!(info.unread_count, 6);
    assert_eq!(info.num_unread_messages, 2);
    assert_eq!(info.num_unread_notifications, 3);
    assert_eq!(info.num_unread_mentions, 1);
    assert!(info.is_marked_unread);
    assert_eq!(info.joined_members_count, 10);
    assert_eq!(info.invited_members_count, 2);
    assert_eq!(info.active_members_count, 12);
    assert_eq!(info.pinned_event_ids, vec!["$pinned".to_string()]);
    assert!(matches!(info.join_rule, Some(JoinRule::Knock)));
    assert!(info.is_space && info.can_user_manage_spaces);
    assert_eq!(info.space_children.len(), 1);
    assert_eq!(info.space_children[0].room_id, "!c:x");

    // A server-side unread estimate that is absent projects to zero.
    let rec = RoomRecord::new("!zero:x".to_string(), RoomState::Joined);
    let room = Room::restore("@me:example.org".to_string(), rec);
    let info = RoomInfo::new(&room).unwrap();
    assert_eq!(info.unread_count, 0);
    assert!(matches!(info.membership, Membership::Joined));
    // A non-space never reports manageable spaces.
    assert!(!info.can_user_manage_spaces);
}
