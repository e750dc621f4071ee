use vstd::prelude::*;
use crate::changes::{merge_changes, StateChanges, StateChangesV, StateEventV};
use crate::errors::StoreError;
use crate::rooms::{RoomRecord, RoomRecordV};
use crate::strmap::{nested_union2, nested_union3};

verus! {

/// Everything a state store holds, as one mathematical value.
pub struct StoreContents {
    /// Room records, keyed by room id.
    pub records: Map<Seq<char>, RoomRecordV>,
    /// The generic key/value area for session bookkeeping.
    pub kv: Map<Seq<char>, Seq<char>>,
    /// State events, keyed by room id, event type and state key.
    pub state: Map<Seq<char>, Map<Seq<char>, Map<Seq<char>, StateEventV>>>,
    /// Recorded redactions, keyed by room id and the redacted event's id.
    pub redactions: Map<Seq<char>, Map<Seq<char>, Seq<char>>>,
    /// Receipt contents, keyed by room id.
    pub receipts: Map<Seq<char>, Seq<char>>,
    /// Global account-data events, keyed by event type.
    pub account_data: Map<Seq<char>, Seq<char>>,
    /// Presence events, keyed by the sender.
    pub presence: Map<Seq<char>, Seq<char>>,
    /// Room account-data events, keyed by room id and event type.
    pub room_account_data: Map<Seq<char>, Map<Seq<char>, Seq<char>>>,
    /// Stripped state events, keyed by room id, event type and state key.
    pub stripped_state: Map<Seq<char>, Map<Seq<char>, Map<Seq<char>, StateEventV>>>,
}

/// The contents of a store with nothing in it.
pub open spec fn empty_contents() -> StoreContents {
    StoreContents {
        records: Map::empty(),
        kv: Map::empty(),
        state: Map::empty(),
        redactions: Map::empty(),
        receipts: Map::empty(),
        account_data: Map::empty(),
        presence: Map::empty(),
        room_account_data: Map::empty(),
        stripped_state: Map::empty(),
    }
}

/// The key under which the synchronization cursor is persisted.
pub open spec fn sync_token_key() -> Seq<char> {
    "sync_token"@
}

/// What a store holds after one change batch is applied as a whole:
/// every section is merged with the batch's, the batch winning at
/// identical composite keys, and the sync token — where the batch carries
/// one — is persisted to the key/value area. A redaction whose target is
/// nowhere in the store is recorded all the same, and has no further
/// effect unless the target arrives later.
pub open spec fn apply_changes(c: StoreContents, ch: StateChangesV) -> StoreContents {
    StoreContents {
        records: c.records.union_prefer_right(ch.room_infos),
        kv: match ch.sync_token {
            Some(t) => c.kv.insert(sync_token_key(), t),
            None => c.kv,
        },
        state: nested_union3(c.state, ch.state),
        redactions: nested_union2(c.redactions, ch.redactions),
        receipts: c.receipts.union_prefer_right(ch.receipts),
        account_data: c.account_data.union_prefer_right(ch.account_data),
        presence: c.presence.union_prefer_right(ch.presence),
        room_account_data: nested_union2(c.room_account_data, ch.room_account_data),
        stripped_state: nested_union3(c.stripped_state, ch.stripped_state),
    }
}

/// What a store holds after one room is forgotten: every per-room section
/// loses the room's entry; the key/value area and the global sections
/// stay.
pub open spec fn remove_room_contents(c: StoreContents, room_id: Seq<char>) -> StoreContents {
    StoreContents {
        records: c.records.remove(room_id),
        kv: c.kv,
        state: c.state.remove(room_id),
        redactions: c.redactions.remove(room_id),
        receipts: c.receipts.remove(room_id),
        account_data: c.account_data,
        presence: c.presence,
        room_account_data: c.room_account_data.remove(room_id),
        stripped_state: c.stripped_state.remove(room_id),
    }
}

/// Whether a record list carries exactly the records of `m`, each under
/// its own room id, no id twice.
pub open spec fn records_match_map(list: Seq<RoomRecordV>, m: Map<Seq<char>, RoomRecordV>)
    -> bool {
    &&& forall|i: int, j: int| 0 <= i < j < list.len() ==> list[i].room_id != list[j].room_id
    &&& forall|i: int|
        0 <= i < list.len() ==> m.contains_key(#[trigger] list[i].room_id) && m[list[i].room_id]
            == list[i]
    &&& forall|k: Seq<char>| m.contains_key(k) ==> exists|i: int|
        0 <= i < list.len() && list[i].room_id == k
}

/// The abstract capability contract of a durable state store. The core
/// depends on the backend only through it; the in-memory default backend
/// proves it, a custom backend is trusted to honour it. Applying a batch
/// is atomic from the caller's point of view: either the whole batch is
/// reflected, or — on an error — nothing is.
pub trait StateStore: Sized {
    /// The store's own well-formedness.
    spec fn inv(&self) -> bool;

    /// Everything the store holds.
    spec fn contents(&self) -> StoreContents;

    /// Loads all persisted room records.
    fn get_room_records(&self) -> (r: Result<Vec<RoomRecord>, StoreError>)
        requires
            self.inv(),
        ensures
            match r {
                Ok(list) => records_match_map(list.deep_view(), self.contents().records),
                Err(_) => true,
            },
    ;

    /// Applies one change batch as a whole, or not at all.
    fn save_changes(&mut self, changes: StateChanges) -> (r: Result<(), StoreError>)
        requires
            old(self).inv(),
            changes.wf(),
        ensures
            final(self).inv(),
            match r {
                Ok(u) => final(self).contents() == apply_changes(old(self).contents(), changes@),
                Err(_) => final(self).contents() == old(self).contents(),
            },
    ;

    /// Forgets one room's data, or — on an error — nothing. Forgetting a
    /// room the store does not know is a no-op, not an error.
    fn remove_room(&mut self, room_id: &String) -> (r: Result<(), StoreError>)
        requires
            old(self).inv(),
        ensures
            final(self).inv(),
            match r {
                Ok(u) => final(self).contents() == remove_room_contents(
                    old(self).contents(),
                    room_id@,
                ),
                Err(_) => final(self).contents() == old(self).contents(),
            },
            !old(self).contents().records.contains_key(room_id@) ==> r is Ok,
    ;

    /// Reads one entry of the key/value area.
    fn get_kv(&self, key: &String) -> (r: Result<Option<String>, StoreError>)
        requires
            self.inv(),
        ensures
            match r {
                Ok(v) => match v {
                    Some(value) => self.contents().kv.contains_key(key@) && value@
                        == self.contents().kv[key@],
                    None => !self.contents().kv.contains_key(key@),
                },
                Err(_) => true,
            },
    ;

    /// Writes one entry of the key/value area, or — on an error —
    /// nothing.
    fn set_kv(&mut self, key: String, value: String) -> (r: Result<(), StoreError>)
        requires
            old(self).inv(),
        ensures
            final(self).inv(),
            match r {
                Ok(u) => final(self).contents() == (StoreContents {
                    kv: old(self).contents().kv.insert(key@, value@),
                    ..old(self).contents()
                }),
                Err(_) => final(self).contents() == old(self).contents(),
            },
    ;
}

/// Flat maps union associatively.
proof fn lemma_union_assoc<T>(a: Map<Seq<char>, T>, b: Map<Seq<char>, T>, c: Map<Seq<char>, T>)
    ensures
        a.union_prefer_right(b).union_prefer_right(c) =~= a.union_prefer_right(
            b.union_prefer_right(c),
        ),
{
}

/// Nested maps union associatively.
proof fn lemma_nested_union2_assoc<T>(
    a: Map<Seq<char>, Map<Seq<char>, T>>,
    b: Map<Seq<char>, Map<Seq<char>, T>>,
    c: Map<Seq<char>, Map<Seq<char>, T>>,
)
    ensures
        nested_union2(nested_union2(a, b), c) =~~= nested_union2(a, nested_union2(b, c)),
{
    assert forall|k: Seq<char>|
        nested_union2(nested_union2(a, b), c).contains_key(
            k,
        ) implies #[trigger] nested_union2(nested_union2(a, b), c)[k] =~= nested_union2(
        a,
        nested_union2(b, c),
    )[k] by {
        if a.contains_key(k) && b.contains_key(k) && c.contains_key(k) {
            lemma_union_assoc(a[k], b[k], c[k]);
        }
    }
}

/// Doubly nested maps union associatively.
proof fn lemma_nested_union3_assoc<T>(
    a: Map<Seq<char>, Map<Seq<char>, Map<Seq<char>, T>>>,
    b: Map<Seq<char>, Map<Seq<char>, Map<Seq<char>, T>>>,
    c: Map<Seq<char>, Map<Seq<char>, Map<Seq<char>, T>>>,
)
    ensures
        nested_union3(nested_union3(a, b), c) =~~= nested_union3(a, nested_union3(b, c)),
{
    assert forall|k: Seq<char>|
        nested_union3(nested_union3(a, b), c).contains_key(
            k,
        ) implies #[trigger] nested_union3(nested_union3(a, b), c)[k] =~~= nested_union3(
        a,
        nested_union3(b, c),
    )[k] by {
        if a.contains_key(k) && b.contains_key(k) && c.contains_key(k) {
            lemma_nested_union2_assoc(a[k], b[k], c[k]);
        }
    }
}

/// Re-application is idempotent: a batch applied twice — as a crash
/// between the durable write and the cursor advance can cause — leaves
/// the store exactly as the first application did.
pub proof fn lemma_apply_idempotent(c: StoreContents, b: StateChangesV)
    ensures
        apply_changes(apply_changes(c, b), b) == apply_changes(c, b),
{
    lemma_apply_merged_batch(c, b, b);
    let m = merge_changes(b, b);
    assert(m.account_data =~= b.account_data);
    assert(m.presence =~= b.presence);
    assert(m.state =~~= b.state);
    assert(m.room_account_data =~~= b.room_account_data);
    assert(m.room_infos =~= b.room_infos);
    assert(m.receipts =~= b.receipts);
    assert(m.redactions =~~= b.redactions);
    assert(m.stripped_state =~~= b.stripped_state);
    assert(m == b);
}

/// Last-write-wins law: applying two batches in turn leaves the store
/// exactly as applying the single merged batch does, where the merged
/// batch has the second batch's entries override the first's at identical
/// composite keys.
pub proof fn lemma_apply_merged_batch(c: StoreContents, b1: StateChangesV, b2: StateChangesV)
    ensures
        apply_changes(apply_changes(c, b1), b2) == apply_changes(c, merge_changes(b1, b2)),
{
    let lhs = apply_changes(apply_changes(c, b1), b2);
    let rhs = apply_changes(c, merge_changes(b1, b2));
    lemma_union_assoc(c.records, b1.room_infos, b2.room_infos);
    lemma_union_assoc(c.receipts, b1.receipts, b2.receipts);
    lemma_union_assoc(c.account_data, b1.account_data, b2.account_data);
    lemma_union_assoc(c.presence, b1.presence, b2.presence);
    lemma_nested_union3_assoc(c.state, b1.state, b2.state);
    lemma_nested_union2_assoc(c.redactions, b1.redactions, b2.redactions);
    lemma_nested_union2_assoc(c.room_account_data, b1.room_account_data, b2.room_account_data);
    lemma_nested_union3_assoc(c.stripped_state, b1.stripped_state, b2.stripped_state);
    assert(lhs.kv =~= rhs.kv);
    assert(lhs == rhs);
}

} // verus!
