use vstd::prelude::*;
use core::cmp::Ordering;
use crate::rooms::{Room, RoomRecordV};
use crate::sorters::{spec_sorter_cmp, Sorter};

verus! {

/// The unread tier derived from raw counts: rooms marked unread or with a
/// notifying or highlighting event come first, rooms with only a generic
/// unread count next, fully read rooms last.
pub open spec fn spec_counts_weight(
    marked_unread: bool,
    highlight_count: u64,
    notification_count: u64,
    unread_count: u64,
) -> int {
    if marked_unread || notification_count > 0 || highlight_count > 0 {
        0
    } else if unread_count > 0 {
        1
    } else {
        2
    }
}

/// The unread tier of a room. The mention count is always the
/// client-computed one, since a server cannot count inside encrypted
/// rooms; the notification and generic counts come from the configured
/// source, and the generic count only participates when silent unread
/// counts are included.
pub open spec fn spec_unread_weight(
    r: RoomRecordV,
    client_generated_counts: bool,
    with_silent_unread: bool,
) -> int {
    if client_generated_counts {
        spec_counts_weight(
            r.is_marked_unread,
            r.num_unread_mentions,
            r.num_unread_notifications,
            if with_silent_unread {
                r.num_unread_messages
            } else {
                0
            },
        )
    } else {
        spec_counts_weight(
            r.is_marked_unread,
            r.num_unread_mentions,
            r.notification_count,
            if with_silent_unread {
                match r.unread_count {
                    Some(n) => n,
                    None => 0,
                }
            } else {
                0
            },
        )
    }
}

/// The unread tier derived from raw counts.
pub fn counts_to_unread_weight(
    marked_unread: bool,
    highlight_count: u64,
    notification_count: u64,
    unread_count: u64,
) -> (w: u8)
    ensures
        w as int == spec_counts_weight(
            marked_unread,
            highlight_count,
            notification_count,
            unread_count,
        ),
{
    if marked_unread || notification_count > 0 || highlight_count > 0 {
        0
    } else if unread_count > 0 {
        1
    } else {
        2
    }
}

/// The unread tier of `room` under the given settings.
pub fn room_to_unread_weight(
    room: &Room,
    client_generated_counts: bool,
    with_silent_unread: bool,
) -> (w: u8)
    ensures
        w as int == spec_unread_weight(room@.record, client_generated_counts, with_silent_unread),
{
    if client_generated_counts {
        counts_to_unread_weight(
            room.is_marked_unread(),
            room.num_unread_mentions(),
            room.num_unread_notifications(),
            if with_silent_unread {
                room.num_unread_messages()
            } else {
                0
            },
        )
    } else {
        counts_to_unread_weight(
            room.is_marked_unread(),
            room.num_unread_mentions(),
            room.unread_notification_counts().notification_count,
            if with_silent_unread {
                match room.unread_count() {
                    Some(n) => n,
                    None => 0,
                }
            } else {
                0
            },
        )
    }
}

/// Compares rooms by unread tier.
#[derive(Clone, Copy, PartialEq, Eq, Structural, Debug)]
pub struct UnreadMatcher {
    /// Whether the client-computed counts are used instead of the
    /// server-reported ones.
    pub client_generated_counts: bool,
    /// Whether silent unread counts participate.
    pub with_silent_unread: bool,
}

impl UnreadMatcher {
    /// Compares two rooms by unread tier; a room compared against its own
    /// id answers `Greater`, by the self-comparison convention.
    pub fn matches(&self, left: &Room, right: &Room) -> (o: Ordering)
        ensures
            o == spec_sorter_cmp(Sorter::Unread(*self), left@, right@),
    {
        if left.room_id().eq(right.room_id()) {
            return Ordering::Greater;
        }
        let left_key = room_to_unread_weight(
            left,
            self.client_generated_counts,
            self.with_silent_unread,
        );
        let right_key = room_to_unread_weight(
            right,
            self.client_generated_counts,
            self.with_silent_unread,
        );
        if left_key < right_key {
            Ordering::Less
        } else if left_key == right_key {
            Ordering::Equal
        } else {
            Ordering::Greater
        }
    }
}

/// The unread sorting criterion under the given settings.
pub fn new_sorter(client_generated_counts: bool, with_silent_unread: bool) -> (s: UnreadMatcher)
    ensures
        s.client_generated_counts == client_generated_counts,
        s.with_silent_unread == with_silent_unread,
{
    UnreadMatcher { client_generated_counts, with_silent_unread }
}

} // verus!
