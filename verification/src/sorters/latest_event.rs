use vstd::prelude::*;
use core::cmp::Ordering;
use crate::rooms::{Room, RoomRecordV};
use crate::sorters::{spec_sorter_cmp, Sorter};

verus! {

/// Rooms whose latest event is a local echo come first.
pub open spec fn spec_latest_event_weight(r: RoomRecordV) -> int {
    if r.has_local_latest_event {
        0
    } else {
        1
    }
}

/// Compares two rooms by the kind of their latest event; a room compared
/// against its own id answers `Greater`, by the self-comparison
/// convention.
pub fn cmp_latest_event(left: &Room, right: &Room) -> (o: Ordering)
    ensures
        o == spec_sorter_cmp(Sorter::LatestEvent, left@, right@),
{
    if left.room_id().eq(right.room_id()) {
        return Ordering::Greater;
    }
    let l: u8 = if left.has_local_latest_event() {
        0
    } else {
        1
    };
    let r: u8 = if right.has_local_latest_event() {
        0
    } else {
        1
    };
    if l < r {
        Ordering::Less
    } else if l == r {
        Ordering::Equal
    } else {
        Ordering::Greater
    }
}

/// The latest-event sorting criterion.
pub fn new_sorter() -> (s: Sorter)
    ensures
        s == Sorter::LatestEvent,
{
    Sorter::LatestEvent
}

} // verus!
