use vstd::prelude::*;
use crate::rooms::{Room, RoomV};

pub mod is_space;
pub mod sc_rooms;

use is_space::IsSpaceRoomMatcher;
use sc_rooms::ScRoomsMatcher;

verus! {

/// One predicate over rooms, selecting which rooms appear in a derived
/// view.
pub enum Filter {
    /// Keeps only rooms that are spaces.
    IsSpace(IsSpaceRoomMatcher),
    /// Keeps only rooms from a fixed id list.
    ScRooms(ScRoomsMatcher),
}

/// Whether `r` passes the filter.
pub open spec fn spec_filter_matches(f: Filter, r: RoomV) -> bool {
    match f {
        Filter::IsSpace(_) => r.record.is_space,
        Filter::ScRooms(m) => m.rooms.deep_view().contains(r.record.room_id),
    }
}

/// Whether `r` passes every filter of `fs`: filters compose by
/// conjunction only.
pub open spec fn spec_matches_all(fs: Seq<Filter>, r: RoomV) -> bool {
    forall|i: int| 0 <= i < fs.len() ==> spec_filter_matches(#[trigger] fs[i], r)
}

impl Filter {
    /// Whether `room` passes the filter.
    pub fn matches(&self, room: &Room) -> (b: bool)
        ensures
            b == spec_filter_matches(*self, room@),
    {
        match self {
            Filter::IsSpace(m) => m.matches(room),
            Filter::ScRooms(m) => m.matches(room),
        }
    }
}

/// Whether `room` passes every filter of `filters`.
pub fn matches_all(filters: &Vec<Filter>, room: &Room) -> (b: bool)
    ensures
        b == spec_matches_all(filters@, room@),
{
    let n: usize = filters.len();
    let mut i: usize = 0;
    while i < n
        invariant
            n == filters.len(),
            0 <= i <= n,
            forall|j: int| 0 <= j < i ==> spec_filter_matches(#[trigger] filters@[j], room@),
        decreases n - i,
    {
        if !filters[i].matches(room) {
            return false;
        }
        i += 1;
    }
    true
}

} // verus!
