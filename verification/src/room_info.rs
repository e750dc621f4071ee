use vstd::prelude::*;
use crate::errors::ClientError;
use crate::rooms::{
    clone_hero_vec, clone_opt_string, clone_string_vec, EncryptionState, JoinRule, Room,
    RoomHero, RoomHistoryVisibility, RoomState,
};
use crate::space_child_info::{children_info_of, space_children_info, SpaceChildInfo};

verus! {

/// Membership of the own user in a room, as exposed to the embedding
/// application.
#[derive(Clone, Copy, PartialEq, Eq, Structural, Debug)]
pub enum Membership {
    /// The user was invited.
    Invited,
    /// The user has joined.
    Joined,
    /// The user has left.
    Left,
    /// The user has knocked.
    Knocked,
    /// The user was banned.
    Banned,
}

/// The membership exposed for a membership state.
pub open spec fn membership_of(state: RoomState) -> Membership {
    match state {
        RoomState::Invited => Membership::Invited,
        RoomState::Joined => Membership::Joined,
        RoomState::Left => Membership::Left,
        RoomState::Knocked => Membership::Knocked,
        RoomState::Banned => Membership::Banned,
    }
}

/// A room's metadata, shaped for the embedding application.
pub struct RoomInfo {
    /// The room's id.
    pub id: String,
    /// Encryption state.
    pub encryption_state: EncryptionState,
    /// Creator of the room, if known.
    pub creator: Option<String>,
    /// The room's name from the state event if received, or a computed
    /// one otherwise.
    pub display_name: Option<String>,
    /// Room name as defined by the room state event only.
    pub raw_name: Option<String>,
    /// The room topic, if any.
    pub topic: Option<String>,
    /// The room avatar URL, if any.
    pub avatar_url: Option<String>,
    /// Whether the room is a direct chat.
    pub is_direct: bool,
    /// Whether the room is public.
    pub is_public: bool,
    /// Whether the room is a space.
    pub is_space: bool,
    /// Whether the room is tagged as favourite.
    pub is_favourite: bool,
    /// Whether the room is tagged as low priority.
    pub is_low_priority: bool,
    /// The canonical alias, if any.
    pub canonical_alias: Option<String>,
    /// The alternative aliases.
    pub alternative_aliases: Vec<String>,
    /// The own user's membership.
    pub membership: Membership,
    /// Display-name material.
    pub heroes: Vec<RoomHero>,
    /// Number of active members.
    pub active_members_count: u64,
    /// Number of invited members.
    pub invited_members_count: u64,
    /// Number of joined members.
    pub joined_members_count: u64,
    /// Server-reported highlight count.
    pub highlight_count: u64,
    /// Server-reported notification count.
    pub notification_count: u64,
    /// Server-reported estimate of unread messages.
    pub unread_count: u64,
    /// Whether a call is going on in the room.
    pub has_room_call: bool,
    /// Users in the active call.
    pub active_room_call_participants: Vec<String>,
    /// The live space children of a space.
    pub space_children: Vec<SpaceChildInfo>,
    /// Whether the own user may manage the space's children.
    pub can_user_manage_spaces: bool,
    /// Whether this room has been explicitly marked as unread.
    pub is_marked_unread: bool,
    /// "Interesting" messages received in the room, independently of the
    /// notification settings.
    pub num_unread_messages: u64,
    /// Events that will notify the user, by their notification settings.
    pub num_unread_notifications: u64,
    /// Events causing mentions for the user, by their notification
    /// settings.
    pub num_unread_mentions: u64,
    /// The currently pinned event ids.
    pub pinned_event_ids: Vec<String>,
    /// The join rule, if known.
    pub join_rule: Option<JoinRule>,
    /// Who may read the room's history.
    pub history_visibility: RoomHistoryVisibility,
}

impl RoomInfo {
    /// Shapes a room's state for the embedding application: every field
    /// is the room's corresponding value at call time.
    pub fn new(room: &Room) -> (r: Result<Self, ClientError>)
        ensures
            match r {
                Ok(info) => {
                    &&& info.id@ == room@.record.room_id
                    &&& info.encryption_state == room@.record.encryption_state
                    &&& info.creator.deep_view() == room@.record.creator
                    &&& info.display_name.deep_view() == room@.record.display_name
                    &&& info.raw_name.deep_view() == room@.record.raw_name
                    &&& info.topic.deep_view() == room@.record.topic
                    &&& info.avatar_url.deep_view() == room@.record.avatar_url
                    &&& info.is_direct == room@.record.is_direct
                    &&& info.is_public == room@.record.is_public
                    &&& info.is_space == room@.record.is_space
                    &&& info.is_favourite == room@.record.is_favourite
                    &&& info.is_low_priority == room@.record.is_low_priority
                    &&& info.canonical_alias.deep_view() == room@.record.canonical_alias
                    &&& info.alternative_aliases.deep_view() == room@.record.alternative_aliases
                    &&& info.membership == membership_of(room@.record.state)
                    &&& info.heroes.deep_view() == room@.record.heroes
                    &&& info.active_members_count == room@.record.active_members_count
                    &&& info.invited_members_count == room@.record.invited_members_count
                    &&& info.joined_members_count == room@.record.joined_members_count
                    &&& info.highlight_count == room@.record.highlight_count
                    &&& info.notification_count == room@.record.notification_count
                    &&& info.unread_count == (match room@.record.unread_count {
                        Some(n) => n,
                        None => 0,
                    })
                    &&& info.has_room_call == room@.record.has_room_call
                    &&& info.active_room_call_participants.deep_view()
                        == room@.record.active_room_call_participants
                    &&& info.space_children.deep_view() == (if room@.record.is_space {
                        children_info_of(room@.record.space_children)
                    } else {
                        Seq::empty()
                    })
                    &&& info.can_user_manage_spaces == (room@.record.is_space
                        && room@.record.can_user_manage_spaces)
                    &&& info.is_marked_unread == room@.record.is_marked_unread
                    &&& info.num_unread_messages == room@.record.num_unread_messages
                    &&& info.num_unread_notifications == room@.record.num_unread_notifications
                    &&& info.num_unread_mentions == room@.record.num_unread_mentions
                    &&& info.pinned_event_ids.deep_view() == room@.record.pinned_event_ids
                    &&& info.join_rule == room@.record.join_rule
                    &&& info.history_visibility == room@.record.history_visibility
                },
                Err(_) => false,
            },
    {
        let record = room.record();
        let unread_count: u64 = match record.unread_count {
            Some(n) => n,
            None => 0,
        };
        let is_space = record.is_space;
        let can_user_manage_spaces = if is_space {
            record.can_user_manage_spaces
        } else {
            false
        };
        let membership = match record.state {
            RoomState::Invited => Membership::Invited,
            RoomState::Joined => Membership::Joined,
            RoomState::Left => Membership::Left,
            RoomState::Knocked => Membership::Knocked,
            RoomState::Banned => Membership::Banned,
        };
        Ok(
            RoomInfo {
                id: record.room_id.clone(),
                encryption_state: record.encryption_state,
                creator: clone_opt_string(&record.creator),
                display_name: clone_opt_string(&record.display_name),
                raw_name: clone_opt_string(&record.raw_name),
                topic: clone_opt_string(&record.topic),
                avatar_url: clone_opt_string(&record.avatar_url),
                is_direct: record.is_direct,
                is_public: record.is_public,
                is_space,
                is_favourite: record.is_favourite,
                is_low_priority: record.is_low_priority,
                canonical_alias: clone_opt_string(&record.canonical_alias),
                alternative_aliases: clone_string_vec(&record.alternative_aliases),
                membership,
                heroes: clone_hero_vec(&record.heroes),
                active_members_count: record.active_members_count,
                invited_members_count: record.invited_members_count,
                joined_members_count: record.joined_members_count,
                highlight_count: record.highlight_count,
                notification_count: record.notification_count,
                unread_count,
                has_room_call: record.has_room_call,
                active_room_call_participants: clone_string_vec(
                    &record.active_room_call_participants,
                ),
                space_children: space_children_info(room),
                can_user_manage_spaces,
                is_marked_unread: record.is_marked_unread,
                num_unread_messages: record.num_unread_messages,
                num_unread_notifications: record.num_unread_notifications,
                num_unread_mentions: record.num_unread_mentions,
                pinned_event_ids: clone_string_vec(&record.pinned_event_ids),
                join_rule: record.join_rule,
                history_visibility: record.history_visibility,
            },
        )
    }
}

} // verus!
