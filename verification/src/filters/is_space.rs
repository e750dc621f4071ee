use vstd::prelude::*;
use crate::filters::Filter;
use crate::rooms::Room;

verus! {

/// Matches rooms that are spaces.
#[derive(Clone, Copy, PartialEq, Eq, Structural, Debug)]
pub struct IsSpaceRoomMatcher {
}

impl IsSpaceRoomMatcher {
    /// Whether `room` is a space.
    pub fn matches(&self, room: &Room) -> (b: bool)
        ensures
            b == room@.record.is_space,
    {
        room.is_space()
    }
}

/// A filter that keeps only rooms that are spaces, i.e. rooms whose type
/// marks them as a container of other rooms.
pub fn new_filter() -> (f: Filter)
    ensures
        f == Filter::IsSpace(IsSpaceRoomMatcher {  }),
{
    Filter::IsSpace(IsSpaceRoomMatcher {  })
}

} // verus!
