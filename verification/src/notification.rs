use vstd::prelude::*;
use crate::errors::ClientError;
use crate::ids::{parse_room_id, room_id_ok};
use crate::memory_store::MemoryStore;
use crate::observable_map::{has_room, room_of};
use crate::rooms::{JoinRule, Room};
use crate::store::BaseStateStore;

verus! {

/// The event a notification is about, as the sliding-sync client hands
/// it over.
pub enum SdkNotificationEvent {
    /// A timeline event, carried as its raw payload.
    Timeline {
        /// The raw event payload.
        event: String,
    },
    /// An invite.
    Invite {
        /// Who invited.
        sender: String,
    },
}

/// A notification item as the sliding-sync client hands it over, before
/// it is shaped for the embedding application.
pub struct SdkNotificationItem {
    /// The event the notification is about.
    pub event: SdkNotificationEvent,
    /// The sender's display name, if known.
    pub sender_display_name: Option<String>,
    /// The sender's avatar URL, if known.
    pub sender_avatar_url: Option<String>,
    /// Whether the sender's display name is ambiguous in the room.
    pub is_sender_name_ambiguous: bool,
    /// The room's computed display name.
    pub room_computed_display_name: String,
    /// The room's avatar URL, if any.
    pub room_avatar_url: Option<String>,
    /// The room's canonical alias, if any.
    pub room_canonical_alias: Option<String>,
    /// The room's join rule, if it could be interpreted.
    pub room_join_rule: Option<JoinRule>,
    /// Number of joined members.
    pub joined_members_count: u64,
    /// Whether the room is encrypted, if known.
    pub is_room_encrypted: Option<bool>,
    /// Whether the room is a direct chat.
    pub is_direct_message_room: bool,
    /// Whether the room is public.
    pub is_room_public: bool,
    /// Whether the notification is noisy; indeterminate where the push
    /// context was insufficient.
    pub is_noisy: Option<bool>,
    /// Whether the event mentions the user; indeterminate where unknown.
    pub has_mention: Option<bool>,
    /// The thread the event belongs to, if any.
    pub thread_id: Option<String>,
}

/// The event a notification is about, shaped for the embedding
/// application.
pub enum NotificationEvent {
    /// A timeline event, carried as its raw payload.
    Timeline {
        /// The raw event payload.
        event: String,
    },
    /// An invite.
    Invite {
        /// Who invited.
        sender: String,
    },
}

/// Sender metadata of a notification.
pub struct NotificationSenderInfo {
    /// The sender's display name, if known.
    pub display_name: Option<String>,
    /// The sender's avatar URL, if known.
    pub avatar_url: Option<String>,
    /// Whether the sender's display name is ambiguous in the room.
    pub is_name_ambiguous: bool,
}

/// Room metadata of a notification.
pub struct NotificationRoomInfo {
    /// The room's computed display name.
    pub display_name: String,
    /// The room's avatar URL, if any.
    pub avatar_url: Option<String>,
    /// The room's canonical alias, if any.
    pub canonical_alias: Option<String>,
    /// The room's join rule, if known.
    pub join_rule: Option<JoinRule>,
    /// Number of joined members.
    pub joined_members_count: u64,
    /// Whether the room is encrypted, if known.
    pub is_encrypted: Option<bool>,
    /// Whether the room is a direct chat.
    pub is_direct: bool,
    /// Whether the room is public.
    pub is_public: bool,
}

/// One notification, shaped for the embedding application.
pub struct NotificationItem {
    /// The event the notification is about.
    pub event: NotificationEvent,
    /// Sender metadata.
    pub sender_info: NotificationSenderInfo,
    /// Room metadata.
    pub room_info: NotificationRoomInfo,
    /// Whether the notification is supposed to be at the "noisy" level;
    /// indeterminate — not defaulted — where the push context was
    /// insufficient to decide.
    pub is_noisy: Option<bool>,
    /// Whether the event mentions the user; indeterminate where unknown.
    pub has_mention: Option<bool>,
    /// The thread the event belongs to, if any.
    pub thread_id: Option<String>,
}

impl NotificationItem {
    /// Shapes a notification item for the embedding application; every
    /// field is carried over unchanged into its place.
    pub fn from_inner(item: SdkNotificationItem) -> (r: Self)
        ensures
            match item.event {
                SdkNotificationEvent::Timeline { event } => r.event == (NotificationEvent::Timeline {
                    event,
                }),
                SdkNotificationEvent::Invite { sender } => r.event == (NotificationEvent::Invite {
                    sender,
                }),
            },
            r.sender_info.display_name == item.sender_display_name,
            r.sender_info.avatar_url == item.sender_avatar_url,
            r.sender_info.is_name_ambiguous == item.is_sender_name_ambiguous,
            r.room_info.display_name == item.room_computed_display_name,
            r.room_info.avatar_url == item.room_avatar_url,
            r.room_info.canonical_alias == item.room_canonical_alias,
            r.room_info.join_rule == item.room_join_rule,
            r.room_info.joined_members_count == item.joined_members_count,
            r.room_info.is_encrypted == item.is_room_encrypted,
            r.room_info.is_direct == item.is_direct_message_room,
            r.room_info.is_public == item.is_room_public,
            r.is_noisy == item.is_noisy,
            r.has_mention == item.has_mention,
            r.thread_id == item.thread_id,
    {
        let event = match item.event {
            SdkNotificationEvent::Timeline { event } => NotificationEvent::Timeline { event },
            SdkNotificationEvent::Invite { sender } => NotificationEvent::Invite { sender },
        };
        NotificationItem {
            event,
            sender_info: NotificationSenderInfo {
                display_name: item.sender_display_name,
                avatar_url: item.sender_avatar_url,
                is_name_ambiguous: item.is_sender_name_ambiguous,
            },
            room_info: NotificationRoomInfo {
                display_name: item.room_computed_display_name,
                avatar_url: item.room_avatar_url,
                canonical_alias: item.room_canonical_alias,
                join_rule: item.room_join_rule,
                joined_members_count: item.joined_members_count,
                is_encrypted: item.is_room_encrypted,
                is_direct: item.is_direct_message_room,
                is_public: item.is_room_public,
            },
            is_noisy: item.is_noisy,
            has_mention: item.has_mention,
            thread_id: item.thread_id,
        }
    }
}

/// The notification lookup handle: it owns an in-memory state store
/// populated by a limited synchronization loop, and answers room lookups
/// from it.
pub struct NotificationClient {
    /// The in-memory store the lookups read from.
    pub inner: BaseStateStore<MemoryStore>,
}

impl NotificationClient {
    /// A client over the given in-memory store.
    pub fn new(inner: BaseStateStore<MemoryStore>) -> (r: Self)
        ensures
            r.inner == inner,
    {
        NotificationClient { inner }
    }

    /// Fetches a room by its id from the in-memory store: a malformed id
    /// is a request-level error, an unknown one simply yields nothing.
    pub fn get_room(&self, room_id: String) -> (r: Result<Option<Room>, ClientError>)
        requires
            self.inner.inv(),
        ensures
            match r {
                Ok(room) => {
                    &&& room_id_ok(room_id@)
                    &&& match room {
                        Some(rm) => has_room(self.inner.rooms_seq(), room_id@) && rm@ == room_of(
                            self.inner.rooms_seq(),
                            room_id@,
                        ),
                        None => !has_room(self.inner.rooms_seq(), room_id@),
                    }
                },
                Err(_) => !room_id_ok(room_id@),
            },
    {
        let parsed = match parse_room_id(room_id.as_str()) {
            Ok(id) => id,
            Err(e) => {
                return Err(e);
            },
        };
        Ok(self.inner.room(&parsed))
    }
}

} // verus!
