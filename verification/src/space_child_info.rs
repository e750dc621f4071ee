use vstd::prelude::*;
use crate::rooms::Room;

verus! {

/// One space-child state event of a space, as the store read it back.
pub struct SpaceChildEvent {
    /// Room id of the child room.
    pub room_id: String,
    /// Whether the event was redacted or replaced by an empty state event,
    /// so that no original content is left.
    pub redacted: bool,
    /// Routing servers; children without any are ignored, as the protocol
    /// specification asks.
    pub via: Vec<String>,
    /// Optional ordering key.
    pub order: Option<String>,
    /// Whether the child is suggested.
    pub suggested: bool,
}

/// Mathematical mirror of [`SpaceChildEvent`].
pub struct SpaceChildEventV {
    pub room_id: Seq<char>,
    pub redacted: bool,
    pub via: Seq<Seq<char>>,
    pub order: Option<Seq<char>>,
    pub suggested: bool,
}

impl View for SpaceChildEvent {
    type V = SpaceChildEventV;

    open spec fn view(&self) -> SpaceChildEventV {
        SpaceChildEventV {
            room_id: self.room_id@,
            redacted: self.redacted,
            via: self.via.deep_view(),
            order: self.order.deep_view(),
            suggested: self.suggested,
        }
    }
}

impl DeepView for SpaceChildEvent {
    type V = SpaceChildEventV;

    open spec fn deep_view(&self) -> SpaceChildEventV {
        self.view()
    }
}

impl Clone for SpaceChildEvent {
    fn clone(&self) -> (r: Self)
        ensures
            r@ == self@,
    {
        SpaceChildEvent {
            room_id: self.room_id.clone(),
            redacted: self.redacted,
            via: crate::rooms::clone_string_vec(&self.via),
            order: crate::rooms::clone_opt_string(&self.order),
            suggested: self.suggested,
        }
    }
}

/// Space-child information exposed to consumers of a space room.
pub struct SpaceChildInfo {
    pub room_id: String,
    pub order: Option<String>,
    pub suggested: bool,
}

/// Mathematical mirror of [`SpaceChildInfo`].
pub struct SpaceChildInfoV {
    pub room_id: Seq<char>,
    pub order: Option<Seq<char>>,
    pub suggested: bool,
}

impl View for SpaceChildInfo {
    type V = SpaceChildInfoV;

    open spec fn view(&self) -> SpaceChildInfoV {
        SpaceChildInfoV {
            room_id: self.room_id@,
            order: self.order.deep_view(),
            suggested: self.suggested,
        }
    }
}

impl DeepView for SpaceChildInfo {
    type V = SpaceChildInfoV;

    open spec fn deep_view(&self) -> SpaceChildInfoV {
        self.view()
    }
}

impl SpaceChildInfo {
    /// Bundles the given fields.
    pub fn new(room_id: String, order: Option<String>, suggested: bool) -> (r: Self)
        ensures
            r@.room_id == room_id@,
            r@.order == order.deep_view(),
            r@.suggested == suggested,
    {
        SpaceChildInfo { room_id, order, suggested }
    }
}

/// Whether a space-child event still names a live child: it has not been
/// redacted and carries at least one routing server.
pub open spec fn live_space_child(e: SpaceChildEventV) -> bool {
    !e.redacted && e.via.len() > 0
}

/// The info record derived from one space-child event.
pub open spec fn info_of_child(e: SpaceChildEventV) -> SpaceChildInfoV {
    SpaceChildInfoV { room_id: e.room_id, order: e.order, suggested: e.suggested }
}

/// The child info derived from an event sequence: live children only, in
/// event order.
pub open spec fn children_info_of(s: Seq<SpaceChildEventV>) -> Seq<SpaceChildInfoV>
    decreases s.len(),
{
    if s.len() == 0 {
        Seq::empty()
    } else if live_space_child(s.last()) {
        children_info_of(s.drop_last()).push(info_of_child(s.last()))
    } else {
        children_info_of(s.drop_last())
    }
}

/// Collects the live space children of `room`. A room that is not a space
/// has none.
pub fn space_children_info(room: &Room) -> (r: Vec<SpaceChildInfo>)
    ensures
        room@.record.is_space ==> r.deep_view() == children_info_of(room@.record.space_children),
        !room@.record.is_space ==> r.deep_view() == Seq::<SpaceChildInfoV>::empty(),
{
    let mut space_children: Vec<SpaceChildInfo> = Vec::new();
    proof {
        assert(space_children.deep_view() =~= Seq::<SpaceChildInfoV>::empty());
    }
    if !room.is_space() {
        return space_children;
    }
    let children: &Vec<SpaceChildEvent> = &room.record().space_children;
    let n: usize = children.len();
    let mut i: usize = 0;
    while i < n
        invariant
            n == children.len(),
            0 <= i <= n,
            children.deep_view() == room@.record.space_children,
            space_children.deep_view() == children_info_of(children.deep_view().take(i as int)),
        decreases n - i,
    {
        let ghost pre = space_children.deep_view();
        let ev = &children[i];
        if !ev.redacted && ev.via.len() > 0 {
            space_children.push(
                SpaceChildInfo::new(
                    ev.room_id.clone(),
                    crate::rooms::clone_opt_string(&ev.order),
                    ev.suggested,
                ),
            );
            proof {
                assert(space_children.deep_view() =~= pre.push(info_of_child(ev@)));
            }
        }
        proof {
            let cs = children.deep_view();
            assert(cs.take(i + 1).drop_last() =~= cs.take(i as int));
            assert(cs.take(i + 1).last() == cs[i as int]);
            assert(cs[i as int] == ev@);
            assert(live_space_child(ev@) == (!ev.redacted && ev.via.len() > 0));
        }
        i += 1;
    }
    proof {
        assert(children.deep_view().take(n as int) =~= children.deep_view());
    }
    space_children
}

} // verus!
