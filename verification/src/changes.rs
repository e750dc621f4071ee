use vstd::prelude::*;
use crate::rooms::{RoomRecord, RoomRecordV};
use crate::strmap::{nested_union2, nested_union3, MapValue, StrMap};

verus! {

/// A state event carried by a change batch, keyed externally by room,
/// event type and state key.
pub struct StateEvent {
    /// The event's own id.
    pub event_id: String,
    /// Who sent the event.
    pub sender: String,
    /// The event's content, as carried over the wire.
    pub content: String,
}

/// Mathematical mirror of [`StateEvent`].
pub struct StateEventV {
    pub event_id: Seq<char>,
    pub sender: Seq<char>,
    pub content: Seq<char>,
}

impl View for StateEvent {
    type V = StateEventV;

    open spec fn view(&self) -> StateEventV {
        StateEventV {
            event_id: self.event_id@,
            sender: self.sender@,
            content: self.content@,
        }
    }
}

impl Clone for StateEvent {
    fn clone(&self) -> (r: Self)
        ensures
            r@ == self@,
    {
        StateEvent {
            event_id: self.event_id.clone(),
            sender: self.sender.clone(),
            content: self.content.clone(),
        }
    }
}

impl MapValue for StateEvent {
    open spec fn val_inv(&self) -> bool {
        true
    }
}

/// Inserting under a composite key of two levels: the inner map of `k1`
/// gains or replaces the entry at `k2`.
pub open spec fn nested_insert2<T>(
    m: Map<Seq<char>, Map<Seq<char>, T>>,
    k1: Seq<char>,
    k2: Seq<char>,
    v: T,
) -> Map<Seq<char>, Map<Seq<char>, T>> {
    let inner = if m.contains_key(k1) {
        m[k1]
    } else {
        Map::empty()
    };
    m.insert(k1, inner.insert(k2, v))
}

/// Inserting under a composite key of three levels.
pub open spec fn nested_insert3<T>(
    m: Map<Seq<char>, Map<Seq<char>, Map<Seq<char>, T>>>,
    k1: Seq<char>,
    k2: Seq<char>,
    k3: Seq<char>,
    v: T,
) -> Map<Seq<char>, Map<Seq<char>, Map<Seq<char>, T>>> {
    let inner = if m.contains_key(k1) {
        m[k1]
    } else {
        Map::empty()
    };
    m.insert(k1, nested_insert2(inner, k2, k3, v))
}

/// Mathematical mirror of [`StateChanges`].
pub struct StateChangesV {
    pub sync_token: Option<Seq<char>>,
    pub account_data: Map<Seq<char>, Seq<char>>,
    pub presence: Map<Seq<char>, Seq<char>>,
    pub state: Map<Seq<char>, Map<Seq<char>, Map<Seq<char>, StateEventV>>>,
    pub room_account_data: Map<Seq<char>, Map<Seq<char>, Seq<char>>>,
    pub room_infos: Map<Seq<char>, RoomRecordV>,
    pub receipts: Map<Seq<char>, Seq<char>>,
    pub redactions: Map<Seq<char>, Map<Seq<char>, Seq<char>>>,
    pub stripped_state: Map<Seq<char>, Map<Seq<char>, Map<Seq<char>, StateEventV>>>,
}

/// One synchronization cycle's accumulated state changes, to be handed to
/// the state store in one piece. Within one batch, each composite key
/// holds the most recent value put under it: batches are "effective end
/// state for the cycle", not event logs.
pub struct StateChanges {
    /// The sync token that relates to this update.
    pub(crate) sync_token: Option<String>,
    /// Global account-data events, keyed by event type.
    pub(crate) account_data: StrMap<String>,
    /// Presence events, keyed by the sender.
    pub(crate) presence: StrMap<String>,
    /// State-event upserts, keyed by room id, event type and state key.
    pub(crate) state: StrMap<StrMap<StrMap<StateEvent>>>,
    /// Room account-data events, keyed by room id and event type.
    pub(crate) room_account_data: StrMap<StrMap<String>>,
    /// Room metadata replacements, keyed by room id.
    pub(crate) room_infos: StrMap<RoomRecord>,
    /// Receipt contents, keyed by room id.
    pub(crate) receipts: StrMap<String>,
    /// Redactions, keyed by room id and the redacted event's id.
    pub(crate) redactions: StrMap<StrMap<String>>,
    /// Stripped state events of invited rooms, keyed by room id, event
    /// type and state key.
    pub(crate) stripped_state: StrMap<StrMap<StrMap<StateEvent>>>,
}

impl View for StateChanges {
    type V = StateChangesV;

    open(crate) spec fn view(&self) -> StateChangesV {
        StateChangesV {
            sync_token: self.sync_token.deep_view(),
            account_data: self.account_data@,
            presence: self.presence@,
            state: self.state@,
            room_account_data: self.room_account_data@,
            room_infos: self.room_infos@,
            receipts: self.receipts@,
            redactions: self.redactions@,
            stripped_state: self.stripped_state@,
        }
    }
}

/// The view of a batch with nothing in it but the given sync token.
pub open spec fn empty_changes(sync_token: Option<Seq<char>>) -> StateChangesV {
    StateChangesV {
        sync_token: sync_token,
        account_data: Map::empty(),
        presence: Map::empty(),
        state: Map::empty(),
        room_account_data: Map::empty(),
        room_infos: Map::empty(),
        receipts: Map::empty(),
        redactions: Map::empty(),
        stripped_state: Map::empty(),
    }
}

/// The batch that has `b`'s entries override `a`'s at identical composite
/// keys; `b`'s sync token wins where it has one.
pub open spec fn merge_changes(a: StateChangesV, b: StateChangesV) -> StateChangesV {
    StateChangesV {
        sync_token: match b.sync_token {
            Some(t) => Some(t),
            None => a.sync_token,
        },
        account_data: a.account_data.union_prefer_right(b.account_data),
        presence: a.presence.union_prefer_right(b.presence),
        state: nested_union3(a.state, b.state),
        room_account_data: nested_union2(a.room_account_data, b.room_account_data),
        room_infos: a.room_infos.union_prefer_right(b.room_infos),
        receipts: a.receipts.union_prefer_right(b.receipts),
        redactions: nested_union2(a.redactions, b.redactions),
        stripped_state: nested_union3(a.stripped_state, b.stripped_state),
    }
}

impl StateChanges {
    /// Every constituent map is well-formed.
    pub open(crate) spec fn wf(&self) -> bool {
        &&& self.account_data.wf()
        &&& self.presence.wf()
        &&& self.state.wf()
        &&& self.room_account_data.wf()
        &&& self.room_infos.wf()
        &&& self.receipts.wf()
        &&& self.redactions.wf()
        &&& self.stripped_state.wf()
        &&& forall|k: Seq<char>|
            self.room_infos@.contains_key(k) ==> (#[trigger] self.room_infos@[k]).room_id == k
    }

    /// An empty batch for the given sync token.
    pub fn new(sync_token: String) -> (r: Self)
        ensures
            r.wf(),
            r@ == empty_changes(Some(sync_token@)),
    {
        let r = StateChanges {
            sync_token: Some(sync_token),
            account_data: StrMap::new(),
            presence: StrMap::new(),
            state: StrMap::new(),
            room_account_data: StrMap::new(),
            room_infos: StrMap::new(),
            receipts: StrMap::new(),
            redactions: StrMap::new(),
            stripped_state: StrMap::new(),
        };
        proof {
            assert(r@.account_data =~= Map::<Seq<char>, Seq<char>>::empty());
        }
        r
    }

    /// An empty batch without a sync token.
    pub fn new_without_token() -> (r: Self)
        ensures
            r.wf(),
            r@ == empty_changes(None),
    {
        let r = StateChanges {
            sync_token: None,
            account_data: StrMap::new(),
            presence: StrMap::new(),
            state: StrMap::new(),
            room_account_data: StrMap::new(),
            room_infos: StrMap::new(),
            receipts: StrMap::new(),
            redactions: StrMap::new(),
            stripped_state: StrMap::new(),
        };
        r
    }

    /// Records a presence event under its sender, overwriting any earlier
    /// one of the same sender in this batch.
    pub fn add_presence_event(&mut self, sender: String, raw_event: String)
        requires
            old(self).wf(),
        ensures
            final(self).wf(),
            final(self)@ == (StateChangesV {
                presence: old(self)@.presence.insert(sender@, raw_event@),
                ..old(self)@
            }),
    {
        self.presence.insert(sender, raw_event);
        proof {
            assert(self@.presence =~= old(self)@.presence.insert(sender@, raw_event@));
        }
    }

    /// Records a room metadata replacement under its room id, overwriting
    /// any earlier one of the same room in this batch.
    pub fn add_room(&mut self, room: RoomRecord)
        requires
            old(self).wf(),
        ensures
            final(self).wf(),
            final(self)@ == (StateChangesV {
                room_infos: old(self)@.room_infos.insert(room@.room_id, room@),
                ..old(self)@
            }),
    {
        let key = room.room_id.clone();
        self.room_infos.insert(key, room);
        proof {
            assert(self@.room_infos =~= old(self)@.room_infos.insert(room@.room_id, room@));
        }
    }

    /// Records a room account-data event under room id and event type,
    /// overwriting any earlier one at the same composite key in this
    /// batch.
    pub fn add_room_account_data(&mut self, room_id: &String, event_type: String,
        raw_event: String)
        requires
            old(self).wf(),
        ensures
            final(self).wf(),
            final(self)@ == (StateChangesV {
                room_account_data: nested_insert2(
                    old(self)@.room_account_data,
                    room_id@,
                    event_type@,
                    raw_event@,
                ),
                ..old(self)@
            }),
    {
        let mut inner: StrMap<String> = match self.room_account_data.remove(room_id) {
            Some(m) => m,
            None => StrMap::new(),
        };
        inner.insert(event_type, raw_event);
        self.room_account_data.insert(room_id.clone(), inner);
        proof {
            assert(self@.room_account_data =~= nested_insert2(
                old(self)@.room_account_data,
                room_id@,
                event_type@,
                raw_event@,
            ));
        }
    }

    /// Records a stripped member event of an invited room under the
    /// member's user id, overwriting any earlier one at the same key in
    /// this batch.
    pub fn add_stripped_member(&mut self, room_id: &String, user_id: &String, event: StateEvent)
        requires
            old(self).wf(),
        ensures
            final(self).wf(),
            final(self)@ == (StateChangesV {
                stripped_state: nested_insert3(
                    old(self)@.stripped_state,
                    room_id@,
                    "m.room.member"@,
                    user_id@,
                    event@,
                ),
                ..old(self)@
            }),
    {
        let event_type = String::from_str("m.room.member");
        let mut inner: StrMap<StrMap<StateEvent>> = match self.stripped_state.remove(room_id) {
            Some(m) => m,
            None => StrMap::new(),
        };
        let mut type_map: StrMap<StateEvent> = match inner.remove(&event_type) {
            Some(m) => m,
            None => StrMap::new(),
        };
        type_map.insert(user_id.clone(), event);
        inner.insert(event_type, type_map);
        self.stripped_state.insert(room_id.clone(), inner);
        proof {
            assert(self@.stripped_state =~~= nested_insert3(
                old(self)@.stripped_state,
                room_id@,
                "m.room.member"@,
                user_id@,
                event@,
            ));
        }
    }

    /// Records a state-event upsert under room id, event type and state
    /// key, overwriting any earlier one at the same composite key in this
    /// batch.
    pub fn add_state_event(
        &mut self,
        room_id: &String,
        event_type: String,
        state_key: String,
        event: StateEvent,
    )
        requires
            old(self).wf(),
        ensures
            final(self).wf(),
            final(self)@ == (StateChangesV {
                state: nested_insert3(
                    old(self)@.state,
                    room_id@,
                    event_type@,
                    state_key@,
                    event@,
                ),
                ..old(self)@
            }),
    {
        let mut inner: StrMap<StrMap<StateEvent>> = match self.state.remove(room_id) {
            Some(m) => m,
            None => StrMap::new(),
        };
        let mut type_map: StrMap<StateEvent> = match inner.remove(&event_type) {
            Some(m) => m,
            None => StrMap::new(),
        };
        type_map.insert(state_key, event);
        inner.insert(event_type, type_map);
        self.state.insert(room_id.clone(), inner);
        proof {
            assert(self@.state =~~= nested_insert3(
                old(self)@.state,
                room_id@,
                event_type@,
                state_key@,
                event@,
            ));
        }
    }

    /// Records a redaction under room id and the redacted event's id,
    /// overwriting any earlier one at the same composite key in this
    /// batch.
    pub fn add_redaction(&mut self, room_id: &String, redacted_event_id: &String,
        redaction: String)
        requires
            old(self).wf(),
        ensures
            final(self).wf(),
            final(self)@ == (StateChangesV {
                redactions: nested_insert2(
                    old(self)@.redactions,
                    room_id@,
                    redacted_event_id@,
                    redaction@,
                ),
                ..old(self)@
            }),
    {
        let mut inner: StrMap<String> = match self.redactions.remove(room_id) {
            Some(m) => m,
            None => StrMap::new(),
        };
        inner.insert(redacted_event_id.clone(), redaction);
        self.redactions.insert(room_id.clone(), inner);
        proof {
            assert(self@.redactions =~= nested_insert2(
                old(self)@.redactions,
                room_id@,
                redacted_event_id@,
                redaction@,
            ));
        }
    }

    /// Records a receipt content under its room id, overwriting any
    /// earlier one of the same room in this batch.
    pub fn add_receipts(&mut self, room_id: &String, event: String)
        requires
            old(self).wf(),
        ensures
            final(self).wf(),
            final(self)@ == (StateChangesV {
                receipts: old(self)@.receipts.insert(room_id@, event@),
                ..old(self)@
            }),
    {
        self.receipts.insert(room_id.clone(), event);
        proof {
            assert(self@.receipts =~= old(self)@.receipts.insert(room_id@, event@));
        }
    }

    /// Folds `other` into this batch, `other`'s entries winning at
    /// identical composite keys, as a later cycle's changes override an
    /// earlier one's.
    pub fn merge_from(&mut self, other: StateChanges)
        requires
            old(self).wf(),
            other.wf(),
        ensures
            final(self).wf(),
            final(self)@ == merge_changes(old(self)@, other@),
    {
        if let Some(t) = other.sync_token {
            self.sync_token = Some(t);
        }
        self.account_data.merge_from(other.account_data);
        self.presence.merge_from(other.presence);
        self.state.merge_nested3_from(other.state);
        self.room_account_data.merge_nested2_from(other.room_account_data);
        self.room_infos.merge_from(other.room_infos);
        self.receipts.merge_from(other.receipts);
        self.redactions.merge_nested2_from(other.redactions);
        self.stripped_state.merge_nested3_from(other.stripped_state);
        proof {
            assert forall|k: Seq<char>|
                self.room_infos@.contains_key(k) implies (
            #[trigger] self.room_infos@[k]).room_id == k by {
                if other@.room_infos.contains_key(k) {
                    assert(other@.room_infos[k].room_id == k);
                } else {
                    assert(old(self)@.room_infos[k].room_id == k);
                }
            }
            assert(self@.account_data =~= merge_changes(old(self)@, other@).account_data);
            assert(self@.presence =~= merge_changes(old(self)@, other@).presence);
            assert(self@.state =~~= merge_changes(old(self)@, other@).state);
            assert(self@.room_account_data =~~= merge_changes(old(self)@, other@)
                .room_account_data);
            assert(self@.room_infos =~= merge_changes(old(self)@, other@).room_infos);
            assert(self@.receipts =~= merge_changes(old(self)@, other@).receipts);
            assert(self@.redactions =~~= merge_changes(old(self)@, other@).redactions);
            assert(self@.stripped_state =~~= merge_changes(old(self)@, other@).stripped_state);
        }
    }
}

} // verus!
