use vstd::prelude::*;
use core::cmp::Ordering;
use crate::rooms::{Room, RoomRecordV, RoomState};
use crate::sorters::{ord_of_ints, spec_sorter_cmp, Sorter};

verus! {

/// The tag tier of a room: invited rooms first; favourites next if pinning
/// is on; low-priority rooms last if burying is on; the rest in between.
pub open spec fn spec_tag_weight(r: RoomRecordV, pin_favorites: bool, bury_low_priority: bool)
    -> int {
    if r.state == RoomState::Invited {
        0
    } else if pin_favorites && r.is_favourite {
        1
    } else if bury_low_priority && r.is_low_priority {
        3
    } else {
        2
    }
}

/// The tag tier of `room` under the given settings.
pub fn room_to_tag_weight(room: &Room, pin_favorites: bool, bury_low_priority: bool) -> (w: u8)
    ensures
        w as int == spec_tag_weight(room@.record, pin_favorites, bury_low_priority),
{
    if matches!(room.state(), RoomState::Invited) {
        0
    } else if pin_favorites && room.is_favourite() {
        1
    } else if bury_low_priority && room.is_low_priority() {
        3
    } else {
        2
    }
}

/// Compares rooms by tag tier.
#[derive(Clone, Copy, PartialEq, Eq, Structural, Debug)]
pub struct TagMatcher {
    /// Whether favourites sort right after invites.
    pub pin_favorites: bool,
    /// Whether low-priority rooms sort last.
    pub bury_low_priority: bool,
}

impl TagMatcher {
    /// Compares two rooms by tag tier; a room compared against its own id
    /// answers `Greater`, by the self-comparison convention.
    pub fn matches(&self, left: &Room, right: &Room) -> (o: Ordering)
        ensures
            o == spec_sorter_cmp(Sorter::Tag(*self), left@, right@),
    {
        if left.room_id().eq(right.room_id()) {
            return Ordering::Greater;
        }
        let left_key = room_to_tag_weight(left, self.pin_favorites, self.bury_low_priority);
        let right_key = room_to_tag_weight(right, self.pin_favorites, self.bury_low_priority);
        if left_key < right_key {
            Ordering::Less
        } else if left_key == right_key {
            Ordering::Equal
        } else {
            Ordering::Greater
        }
    }
}

/// The tag sorting criterion under the given settings.
pub fn new_sorter(pin_favorites: bool, bury_low_priority: bool) -> (s: TagMatcher)
    ensures
        s.pin_favorites == pin_favorites,
        s.bury_low_priority == bury_low_priority,
{
    TagMatcher { pin_favorites, bury_low_priority }
}

} // verus!
