use vstd::prelude::*;
use core::cmp::Ordering;
use crate::rooms::Room;
use crate::sorters::{spec_sorter_cmp, Sorter};

verus! {

/// Compares two rooms by recency, most recently active first; a room
/// compared against its own id answers `Greater`, by the self-comparison
/// convention.
pub fn cmp_recency(left: &Room, right: &Room) -> (o: Ordering)
    ensures
        o == spec_sorter_cmp(Sorter::Recency, left@, right@),
{
    if left.room_id().eq(right.room_id()) {
        return Ordering::Greater;
    }
    let l = left.recency_stamp();
    let r = right.recency_stamp();
    if r < l {
        Ordering::Less
    } else if r == l {
        Ordering::Equal
    } else {
        Ordering::Greater
    }
}

/// The recency sorting criterion.
pub fn new_sorter() -> (s: Sorter)
    ensures
        s == Sorter::Recency,
{
    Sorter::Recency
}

} // verus!
