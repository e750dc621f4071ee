use vstd::prelude::*;
use crate::space_child_info::{SpaceChildEvent, SpaceChildEventV};
use crate::strmap::MapValue;

verus! {

/// Membership state of the own user in a room.
#[derive(Clone, Copy, PartialEq, Eq, Structural, Debug)]
pub enum RoomState {
    /// The user was invited.
    Invited,
    /// The user has joined.
    Joined,
    /// The user has left, or was never in the room.
    Left,
    /// The user has knocked.
    Knocked,
    /// The user was banned.
    Banned,
}

/// Whether a room is end-to-end encrypted, as far as the store knows.
#[derive(Clone, Copy, PartialEq, Eq, Structural, Debug)]
pub enum EncryptionState {
    /// The room is encrypted.
    Encrypted,
    /// The room is not encrypted.
    NotEncrypted,
    /// The encryption state was not yet determined.
    Unknown,
}

/// The join rule of a room, if known.
#[derive(Clone, Copy, PartialEq, Eq, Structural, Debug)]
pub enum JoinRule {
    /// Anybody can join.
    Public,
    /// An invite is needed.
    Invite,
    /// Knocking is allowed.
    Knock,
    /// Members of listed rooms can join.
    Restricted,
    /// Members of listed rooms can join or knock.
    KnockRestricted,
    /// Only room creators can add members.
    Private,
}

/// Who may read a room's history.
#[derive(Clone, Copy, PartialEq, Eq, Structural, Debug)]
pub enum RoomHistoryVisibility {
    /// Readable since the reader was invited.
    Invited,
    /// Readable since the reader joined.
    Joined,
    /// Readable by members, for the whole history.
    Shared,
    /// Readable by anyone.
    WorldReadable,
}

/// Server-reported unread notification counts of a room.
#[derive(Clone, Copy, PartialEq, Eq, Structural, Debug)]
pub struct UnreadNotificationsCount {
    /// Events that notify, by the server's push rules.
    pub notification_count: u64,
    /// Events that highlight (mention), by the server's push rules.
    pub highlight_count: u64,
}

/// A member used as display-name material for a room without a name.
pub struct RoomHero {
    /// The member's user id.
    pub user_id: String,
    /// The member's display name, if any.
    pub display_name: Option<String>,
    /// The member's avatar URL, if any.
    pub avatar_url: Option<String>,
}

/// Mathematical mirror of [`RoomHero`].
pub struct RoomHeroV {
    pub user_id: Seq<char>,
    pub display_name: Option<Seq<char>>,
    pub avatar_url: Option<Seq<char>>,
}

impl View for RoomHero {
    type V = RoomHeroV;

    open spec fn view(&self) -> RoomHeroV {
        RoomHeroV {
            user_id: self.user_id@,
            display_name: self.display_name.deep_view(),
            avatar_url: self.avatar_url.deep_view(),
        }
    }
}

impl DeepView for RoomHero {
    type V = RoomHeroV;

    open spec fn deep_view(&self) -> RoomHeroV {
        self.view()
    }
}

impl Clone for RoomHero {
    fn clone(&self) -> (r: Self)
        ensures
            r@ == self@,
    {
        RoomHero {
            user_id: self.user_id.clone(),
            display_name: clone_opt_string(&self.display_name),
            avatar_url: clone_opt_string(&self.avatar_url),
        }
    }
}

/// Copies an optional string; the copy has the same characters.
pub fn clone_opt_string(v: &Option<String>) -> (r: Option<String>)
    ensures
        r.deep_view() == v.deep_view(),
{
    match v {
        Some(s) => Some(s.clone()),
        None => None,
    }
}

/// Copies a string list; the copy has the same characters at each position.
pub fn clone_string_vec(v: &Vec<String>) -> (r: Vec<String>)
    ensures
        r.deep_view() == v.deep_view(),
{
    let mut r: Vec<String> = Vec::new();
    let n: usize = v.len();
    let mut i: usize = 0;
    proof {
        assert(r.deep_view() =~= v.deep_view().take(0));
    }
    while i < n
        invariant
            n == v.len(),
            0 <= i <= n,
            r.deep_view() == v.deep_view().take(i as int),
        decreases n - i,
    {
        let ghost pre = r.deep_view();
        r.push(v[i].clone());
        proof {
            assert(r.deep_view() =~= pre.push(v@[i as int]@));
            assert(v.deep_view().take(i + 1) =~= v.deep_view().take(i as int).push(
                v.deep_view()[i as int],
            ));
        }
        i += 1;
    }
    proof {
        assert(v.deep_view().take(n as int) =~= v.deep_view());
    }
    r
}

/// Copies a hero list; the copy mirrors the original.
pub fn clone_hero_vec(v: &Vec<RoomHero>) -> (r: Vec<RoomHero>)
    ensures
        r.deep_view() == v.deep_view(),
{
    let mut r: Vec<RoomHero> = Vec::new();
    let n: usize = v.len();
    let mut i: usize = 0;
    proof {
        assert(r.deep_view() =~= v.deep_view().take(0));
    }
    while i < n
        invariant
            n == v.len(),
            0 <= i <= n,
            r.deep_view() == v.deep_view().take(i as int),
        decreases n - i,
    {
        let ghost pre = r.deep_view();
        r.push(v[i].clone());
        proof {
            assert(r.deep_view() =~= pre.push(v@[i as int]@));
            assert(v.deep_view().take(i + 1) =~= v.deep_view().take(i as int).push(
                v.deep_view()[i as int],
            ));
        }
        i += 1;
    }
    proof {
        assert(v.deep_view().take(n as int) =~= v.deep_view());
    }
    r
}

/// Copies a space-child event list; the copy mirrors the original.
pub fn clone_space_child_vec(v: &Vec<SpaceChildEvent>) -> (r: Vec<SpaceChildEvent>)
    ensures
        r.deep_view() == v.deep_view(),
{
    let mut r: Vec<SpaceChildEvent> = Vec::new();
    let n: usize = v.len();
    let mut i: usize = 0;
    proof {
        assert(r.deep_view() =~= v.deep_view().take(0));
    }
    while i < n
        invariant
            n == v.len(),
            0 <= i <= n,
            r.deep_view() == v.deep_view().take(i as int),
        decreases n - i,
    {
        let ghost pre = r.deep_view();
        r.push(v[i].clone());
        proof {
            assert(r.deep_view() =~= pre.push(v@[i as int]@));
            assert(v.deep_view().take(i + 1) =~= v.deep_view().take(i as int).push(
                v.deep_view()[i as int],
            ));
        }
        i += 1;
    }
    proof {
        assert(v.deep_view().take(n as int) =~= v.deep_view());
    }
    r
}

/// The current format version of persisted room records.
pub const ROOM_RECORD_FORMAT_VERSION: u32 = 1;

/// The durable record of one room, as persisted by the state store.
pub struct RoomRecord {
    /// Format version of the record; older records are migrated on load.
    pub version: u32,
    /// The room's id.
    pub room_id: String,
    /// Own membership state.
    pub state: RoomState,
    /// Creator of the room, if known.
    pub creator: Option<String>,
    /// Display name, as received or computed.
    pub display_name: Option<String>,
    /// Name from the room state event only.
    pub raw_name: Option<String>,
    /// The room topic, if any.
    pub topic: Option<String>,
    /// The room avatar URL, if any.
    pub avatar_url: Option<String>,
    /// The canonical alias, if any.
    pub canonical_alias: Option<String>,
    /// The alternative aliases.
    pub alternative_aliases: Vec<String>,
    /// Encryption state.
    pub encryption_state: EncryptionState,
    /// Whether the room is a direct chat.
    pub is_direct: bool,
    /// Whether the room is public.
    pub is_public: bool,
    /// Whether the room is a space.
    pub is_space: bool,
    /// Whether the room is tagged as favourite.
    pub is_favourite: bool,
    /// Whether the room is tagged as low priority.
    pub is_low_priority: bool,
    /// Whether the room was explicitly marked as unread.
    pub is_marked_unread: bool,
    /// Client-computed count of interesting messages.
    pub num_unread_messages: u64,
    /// Client-computed count of notifying events.
    pub num_unread_notifications: u64,
    /// Client-computed count of mentions.
    pub num_unread_mentions: u64,
    /// Server-reported notification count.
    pub notification_count: u64,
    /// Server-reported highlight count.
    pub highlight_count: u64,
    /// Server-reported estimate of unread messages, if any.
    pub unread_count: Option<u64>,
    /// Timestamp-like stamp of the latest activity.
    pub recency_stamp: u64,
    /// Number of active members.
    pub active_members_count: u64,
    /// Number of invited members.
    pub invited_members_count: u64,
    /// Number of joined members.
    pub joined_members_count: u64,
    /// Whether a call is going on in the room.
    pub has_room_call: bool,
    /// Users in the active call.
    pub active_room_call_participants: Vec<String>,
    /// Display-name material.
    pub heroes: Vec<RoomHero>,
    /// The currently pinned event ids.
    pub pinned_event_ids: Vec<String>,
    /// The join rule, if known.
    pub join_rule: Option<JoinRule>,
    /// Who may read the room's history.
    pub history_visibility: RoomHistoryVisibility,
    /// The space-child state events of a space.
    pub space_children: Vec<SpaceChildEvent>,
    /// Whether the own user may manage the space's children.
    pub can_user_manage_spaces: bool,
    /// Whether the latest event of the room is a local echo.
    pub has_local_latest_event: bool,
}

/// Mathematical mirror of [`RoomRecord`].
pub struct RoomRecordV {
    pub version: u32,
    pub room_id: Seq<char>,
    pub state: RoomState,
    pub creator: Option<Seq<char>>,
    pub display_name: Option<Seq<char>>,
    pub raw_name: Option<Seq<char>>,
    pub topic: Option<Seq<char>>,
    pub avatar_url: Option<Seq<char>>,
    pub canonical_alias: Option<Seq<char>>,
    pub alternative_aliases: Seq<Seq<char>>,
    pub encryption_state: EncryptionState,
    pub is_direct: bool,
    pub is_public: bool,
    pub is_space: bool,
    pub is_favourite: bool,
    pub is_low_priority: bool,
    pub is_marked_unread: bool,
    pub num_unread_messages: u64,
    pub num_unread_notifications: u64,
    pub num_unread_mentions: u64,
    pub notification_count: u64,
    pub highlight_count: u64,
    pub unread_count: Option<u64>,
    pub recency_stamp: u64,
    pub active_members_count: u64,
    pub invited_members_count: u64,
    pub joined_members_count: u64,
    pub has_room_call: bool,
    pub active_room_call_participants: Seq<Seq<char>>,
    pub heroes: Seq<RoomHeroV>,
    pub pinned_event_ids: Seq<Seq<char>>,
    pub join_rule: Option<JoinRule>,
    pub history_visibility: RoomHistoryVisibility,
    pub space_children: Seq<SpaceChildEventV>,
    pub can_user_manage_spaces: bool,
    pub has_local_latest_event: bool,
}

impl View for RoomRecord {
    type V = RoomRecordV;

    open spec fn view(&self) -> RoomRecordV {
        RoomRecordV {
            version: self.version,
            room_id: self.room_id@,
            state: self.state,
            creator: self.creator.deep_view(),
            display_name: self.display_name.deep_view(),
            raw_name: self.raw_name.deep_view(),
            topic: self.topic.deep_view(),
            avatar_url: self.avatar_url.deep_view(),
            canonical_alias: self.canonical_alias.deep_view(),
            alternative_aliases: self.alternative_aliases.deep_view(),
            encryption_state: self.encryption_state,
            is_direct: self.is_direct,
            is_public: self.is_public,
            is_space: self.is_space,
            is_favourite: self.is_favourite,
            is_low_priority: self.is_low_priority,
            is_marked_unread: self.is_marked_unread,
            num_unread_messages: self.num_unread_messages,
            num_unread_notifications: self.num_unread_notifications,
            num_unread_mentions: self.num_unread_mentions,
            notification_count: self.notification_count,
            highlight_count: self.highlight_count,
            unread_count: self.unread_count,
            recency_stamp: self.recency_stamp,
            active_members_count: self.active_members_count,
            invited_members_count: self.invited_members_count,
            joined_members_count: self.joined_members_count,
            has_room_call: self.has_room_call,
            active_room_call_participants: self.active_room_call_participants.deep_view(),
            heroes: self.heroes.deep_view(),
            pinned_event_ids: self.pinned_event_ids.deep_view(),
            join_rule: self.join_rule,
            history_visibility: self.history_visibility,
            space_children: self.space_children.deep_view(),
            can_user_manage_spaces: self.can_user_manage_spaces,
            has_local_latest_event: self.has_local_latest_event,
        }
    }
}

impl DeepView for RoomRecord {
    type V = RoomRecordV;

    open spec fn deep_view(&self) -> RoomRecordV {
        self.view()
    }
}

impl MapValue for RoomRecord {
    open spec fn val_inv(&self) -> bool {
        true
    }
}

impl Clone for RoomRecord {
    fn clone(&self) -> (r: Self)
        ensures
            r@ == self@,
    {
        RoomRecord {
            version: self.version,
            room_id: self.room_id.clone(),
            state: self.state,
            creator: clone_opt_string(&self.creator),
            display_name: clone_opt_string(&self.display_name),
            raw_name: clone_opt_string(&self.raw_name),
            topic: clone_opt_string(&self.topic),
            avatar_url: clone_opt_string(&self.avatar_url),
            canonical_alias: clone_opt_string(&self.canonical_alias),
            alternative_aliases: clone_string_vec(&self.alternative_aliases),
            encryption_state: self.encryption_state,
            is_direct: self.is_direct,
            is_public: self.is_public,
            is_space: self.is_space,
            is_favourite: self.is_favourite,
            is_low_priority: self.is_low_priority,
            is_marked_unread: self.is_marked_unread,
            num_unread_messages: self.num_unread_messages,
            num_unread_notifications: self.num_unread_notifications,
            num_unread_mentions: self.num_unread_mentions,
            notification_count: self.notification_count,
            highlight_count: self.highlight_count,
            unread_count: self.unread_count,
            recency_stamp: self.recency_stamp,
            active_members_count: self.active_members_count,
            invited_members_count: self.invited_members_count,
            joined_members_count: self.joined_members_count,
            has_room_call: self.has_room_call,
            active_room_call_participants: clone_string_vec(
                &self.active_room_call_participants,
            ),
            heroes: clone_hero_vec(&self.heroes),
            pinned_event_ids: clone_string_vec(&self.pinned_event_ids),
            join_rule: self.join_rule,
            history_visibility: self.history_visibility,
            space_children: clone_space_child_vec(&self.space_children),
            can_user_manage_spaces: self.can_user_manage_spaces,
            has_local_latest_event: self.has_local_latest_event,
        }
    }
}

/// The record a freshly seen room starts from: everything empty or zero but
/// the id and the membership state.
pub open spec fn fresh_record(room_id: Seq<char>, state: RoomState) -> RoomRecordV {
    RoomRecordV {
        version: ROOM_RECORD_FORMAT_VERSION,
        room_id: room_id,
        state: state,
        creator: None,
        display_name: None,
        raw_name: None,
        topic: None,
        avatar_url: None,
        canonical_alias: None,
        alternative_aliases: Seq::empty(),
        encryption_state: EncryptionState::Unknown,
        is_direct: false,
        is_public: false,
        is_space: false,
        is_favourite: false,
        is_low_priority: false,
        is_marked_unread: false,
        num_unread_messages: 0,
        num_unread_notifications: 0,
        num_unread_mentions: 0,
        notification_count: 0,
        highlight_count: 0,
        unread_count: None,
        recency_stamp: 0,
        active_members_count: 0,
        invited_members_count: 0,
        joined_members_count: 0,
        has_room_call: false,
        active_room_call_participants: Seq::empty(),
        heroes: Seq::empty(),
        pinned_event_ids: Seq::empty(),
        join_rule: None,
        history_visibility: RoomHistoryVisibility::Shared,
        space_children: Seq::empty(),
        can_user_manage_spaces: false,
        has_local_latest_event: false,
    }
}

/// The shape a record of an older format version takes after migration:
/// the client-computed unread counters, which older formats did not persist,
/// are seeded from the server-reported ones, and the version is lifted.
pub open spec fn migrated_record(r: RoomRecordV) -> RoomRecordV {
    RoomRecordV {
        version: ROOM_RECORD_FORMAT_VERSION,
        num_unread_notifications: r.notification_count,
        num_unread_mentions: r.highlight_count,
        num_unread_messages: match r.unread_count {
            Some(n) => n,
            None => 0,
        },
        ..r
    }
}

impl RoomRecord {
    /// A fresh record for a room seen for the first time.
    pub fn new(room_id: String, state: RoomState) -> (r: Self)
        ensures
            r@ == fresh_record(room_id@, state),
    {
        let r = RoomRecord {
            version: ROOM_RECORD_FORMAT_VERSION,
            room_id,
            state,
            creator: None,
            display_name: None,
            raw_name: None,
            topic: None,
            avatar_url: None,
            canonical_alias: None,
            alternative_aliases: Vec::new(),
            encryption_state: EncryptionState::Unknown,
            is_direct: false,
            is_public: false,
            is_space: false,
            is_favourite: false,
            is_low_priority: false,
            is_marked_unread: false,
            num_unread_messages: 0,
            num_unread_notifications: 0,
            num_unread_mentions: 0,
            notification_count: 0,
            highlight_count: 0,
            unread_count: None,
            recency_stamp: 0,
            active_members_count: 0,
            invited_members_count: 0,
            joined_members_count: 0,
            has_room_call: false,
            active_room_call_participants: Vec::new(),
            heroes: Vec::new(),
            pinned_event_ids: Vec::new(),
            join_rule: None,
            history_visibility: RoomHistoryVisibility::Shared,
            space_children: Vec::new(),
            can_user_manage_spaces: false,
            has_local_latest_event: false,
        };
        proof {
            assert(r@.alternative_aliases =~= Seq::<Seq<char>>::empty());
            assert(r@.active_room_call_participants =~= Seq::<Seq<char>>::empty());
            assert(r@.heroes =~= Seq::<RoomHeroV>::empty());
            assert(r@.pinned_event_ids =~= Seq::<Seq<char>>::empty());
            assert(r@.space_children =~= Seq::<SpaceChildEventV>::empty());
            assert(r@ == fresh_record(r.room_id@, r.state));
        }
        r
    }

    /// Brings the record to the current format version; reports whether it
    /// was changed, so that the caller can persist the migrated shape.
    pub fn apply_migrations(&mut self) -> (migrated: bool)
        ensures
            migrated == (old(self)@.version < ROOM_RECORD_FORMAT_VERSION),
            migrated ==> final(self)@ == migrated_record(old(self)@),
            !migrated ==> final(self)@ == old(self)@,
    {
        if self.version < ROOM_RECORD_FORMAT_VERSION {
            self.num_unread_notifications = self.notification_count;
            self.num_unread_mentions = self.highlight_count;
            self.num_unread_messages = match self.unread_count {
                Some(n) => n,
                None => 0,
            };
            self.version = ROOM_RECORD_FORMAT_VERSION;
            true
        } else {
            false
        }
    }
}

/// A filter over membership states, used to narrow room snapshots.
#[derive(Clone, Copy, PartialEq, Eq, Structural, Debug)]
pub struct RoomStateFilter {
    /// Accept invited rooms.
    pub invited: bool,
    /// Accept joined rooms.
    pub joined: bool,
    /// Accept left rooms.
    pub left: bool,
    /// Accept knocked rooms.
    pub knocked: bool,
    /// Accept banned rooms.
    pub banned: bool,
}

impl RoomStateFilter {
    /// Whether `state` passes this filter.
    pub open spec fn spec_matches(self, state: RoomState) -> bool {
        match state {
            RoomState::Invited => self.invited,
            RoomState::Joined => self.joined,
            RoomState::Left => self.left,
            RoomState::Knocked => self.knocked,
            RoomState::Banned => self.banned,
        }
    }

    /// Whether `state` passes this filter.
    pub fn matches(&self, state: RoomState) -> (b: bool)
        ensures
            b == self.spec_matches(state),
    {
        match state {
            RoomState::Invited => self.invited,
            RoomState::Joined => self.joined,
            RoomState::Left => self.left,
            RoomState::Knocked => self.knocked,
            RoomState::Banned => self.banned,
        }
    }

    /// A filter that accepts every membership state.
    pub fn all() -> (r: Self)
        ensures
            forall|s: RoomState| r.spec_matches(s),
    {
        RoomStateFilter { invited: true, joined: true, left: true, knocked: true, banned: true }
    }
}

/// A live room object: the own user's view of one room, built from its
/// durable record. Handles given out by the store are read-only.
pub struct Room {
    user_id: String,
    record: RoomRecord,
}

/// Mathematical mirror of [`Room`].
pub struct RoomV {
    pub user_id: Seq<char>,
    pub record: RoomRecordV,
}

impl View for Room {
    type V = RoomV;

    closed spec fn view(&self) -> RoomV {
        RoomV { user_id: self.user_id@, record: self.record@ }
    }
}

impl DeepView for Room {
    type V = RoomV;

    open spec fn deep_view(&self) -> RoomV {
        self.view()
    }
}

impl Clone for Room {
    fn clone(&self) -> (r: Self)
        ensures
            r@ == self@,
    {
        Room { user_id: self.user_id.clone(), record: self.record.clone() }
    }
}

impl Room {
    /// A fresh room, seen for the first time in the given membership state.
    pub fn new(user_id: String, room_id: String, state: RoomState) -> (r: Self)
        ensures
            r@.user_id == user_id@,
            r@.record == fresh_record(room_id@, state),
    {
        Room { user_id, record: RoomRecord::new(room_id, state) }
    }

    /// A room restored from a persisted record at session start.
    pub fn restore(user_id: String, record: RoomRecord) -> (r: Self)
        ensures
            r@.user_id == user_id@,
            r@.record == record@,
    {
        Room { user_id, record }
    }

    /// The own user's id.
    pub fn own_user_id(&self) -> (r: &String)
        ensures
            r@ == self@.user_id,
    {
        &self.user_id
    }

    /// The room's id.
    pub fn room_id(&self) -> (r: &String)
        ensures
            r@ == self@.record.room_id,
    {
        &self.record.room_id
    }

    /// The durable record the room was built from.
    pub fn record(&self) -> (r: &RoomRecord)
        ensures
            r@ == self@.record,
    {
        &self.record
    }

    /// Own membership state.
    pub fn state(&self) -> (r: RoomState)
        ensures
            r == self@.record.state,
    {
        self.record.state
    }

    /// Whether the room is a space.
    pub fn is_space(&self) -> (b: bool)
        ensures
            b == self@.record.is_space,
    {
        self.record.is_space
    }

    /// Whether the room is tagged as favourite.
    pub fn is_favourite(&self) -> (b: bool)
        ensures
            b == self@.record.is_favourite,
    {
        self.record.is_favourite
    }

    /// Whether the room is tagged as low priority.
    pub fn is_low_priority(&self) -> (b: bool)
        ensures
            b == self@.record.is_low_priority,
    {
        self.record.is_low_priority
    }

    /// Whether the room was explicitly marked as unread.
    pub fn is_marked_unread(&self) -> (b: bool)
        ensures
            b == self@.record.is_marked_unread,
    {
        self.record.is_marked_unread
    }

    /// Client-computed count of interesting messages.
    pub fn num_unread_messages(&self) -> (n: u64)
        ensures
            n == self@.record.num_unread_messages,
    {
        self.record.num_unread_messages
    }

    /// Client-computed count of notifying events.
    pub fn num_unread_notifications(&self) -> (n: u64)
        ensures
            n == self@.record.num_unread_notifications,
    {
        self.record.num_unread_notifications
    }

    /// Client-computed count of mentions.
    pub fn num_unread_mentions(&self) -> (n: u64)
        ensures
            n == self@.record.num_unread_mentions,
    {
        self.record.num_unread_mentions
    }

    /// Server-reported unread notification counts.
    pub fn unread_notification_counts(&self) -> (c: UnreadNotificationsCount)
        ensures
            c.notification_count == self@.record.notification_count,
            c.highlight_count == self@.record.highlight_count,
    {
        UnreadNotificationsCount {
            notification_count: self.record.notification_count,
            highlight_count: self.record.highlight_count,
        }
    }

    /// Server-reported estimate of unread messages, if any.
    pub fn unread_count(&self) -> (n: Option<u64>)
        ensures
            n == self@.record.unread_count,
    {
        self.record.unread_count
    }

    /// Stamp of the latest activity in the room.
    pub fn recency_stamp(&self) -> (n: u64)
        ensures
            n == self@.record.recency_stamp,
    {
        self.record.recency_stamp
    }

    /// Display name, as received or computed.
    pub fn display_name(&self) -> (r: &Option<String>)
        ensures
            r.deep_view() == self@.record.display_name,
    {
        &self.record.display_name
    }

    /// Whether the latest event of the room is a local echo.
    pub fn has_local_latest_event(&self) -> (b: bool)
        ensures
            b == self@.record.has_local_latest_event,
    {
        self.record.has_local_latest_event
    }
}

} // verus!
