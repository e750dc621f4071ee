use vstd::prelude::*;
use crate::filters::Filter;
use crate::rooms::Room;

verus! {

/// Matches rooms whose id stands in a fixed list.
pub struct ScRoomsMatcher {
    /// The accepted room ids.
    pub rooms: Vec<String>,
}

impl ScRoomsMatcher {
    /// Whether `room`'s id stands in the list.
    pub fn matches(&self, room: &Room) -> (b: bool)
        ensures
            b == self.rooms.deep_view().contains(room@.record.room_id),
    {
        let n: usize = self.rooms.len();
        let mut i: usize = 0;
        while i < n
            invariant
                n == self.rooms.len(),
                0 <= i <= n,
                forall|j: int| 0 <= j < i ==> self.rooms.deep_view()[j] != room@.record.room_id,
            decreases n - i,
        {
            if self.rooms[i].eq(room.room_id()) {
                proof {
                    assert(self.rooms.deep_view()[i as int] == room@.record.room_id);
                }
                return true;
            }
            i += 1;
        }
        proof {
            if self.rooms.deep_view().contains(room@.record.room_id) {
                let j = choose|j: int|
                    0 <= j < self.rooms.deep_view().len() && self.rooms.deep_view()[j]
                        == room@.record.room_id;
                assert(self.rooms.deep_view()[j] != room@.record.room_id);
            }
        }
        false
    }
}

/// A filter that keeps only the rooms named in `rooms`.
pub fn new_filter(rooms: Vec<String>) -> (f: Filter)
    ensures
        f == Filter::ScRooms(ScRoomsMatcher { rooms }),
{
    Filter::ScRooms(ScRoomsMatcher { rooms })
}

} // verus!
