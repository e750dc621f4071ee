use vstd::prelude::*;
use crate::changes::{StateChanges, StateEvent};
use crate::errors::StoreError;
use crate::rooms::RoomRecord;
use crate::strmap::StrMap;
use crate::traits::{apply_changes, remove_room_contents, StateStore, StoreContents};

verus! {

/// The in-memory state store: the default backend, which keeps everything
/// in ordinary maps and never fails.
pub struct MemoryStore {
    pub(crate) records: StrMap<RoomRecord>,
    pub(crate) kv: StrMap<String>,
    pub(crate) state: StrMap<StrMap<StrMap<StateEvent>>>,
    pub(crate) redactions: StrMap<StrMap<String>>,
    pub(crate) receipts: StrMap<String>,
    pub(crate) account_data: StrMap<String>,
    pub(crate) presence: StrMap<String>,
    pub(crate) room_account_data: StrMap<StrMap<String>>,
    pub(crate) stripped_state: StrMap<StrMap<StrMap<StateEvent>>>,
}

impl MemoryStore {
    /// An empty store.
    pub fn new() -> (r: Self)
        ensures
            r.inv(),
            r.contents() == crate::traits::empty_contents(),
    {
        let r = MemoryStore {
            records: StrMap::new(),
            kv: StrMap::new(),
            state: StrMap::new(),
            redactions: StrMap::new(),
            receipts: StrMap::new(),
            account_data: StrMap::new(),
            presence: StrMap::new(),
            room_account_data: StrMap::new(),
            stripped_state: StrMap::new(),
        };
        proof {
            assert(r.contents() == crate::traits::empty_contents());
        }
        r
    }

    /// Reads one stored state event, together with whether a redaction
    /// targeting it has been recorded: an event is in "redacted" state as
    /// soon as both the event and a redaction naming its id are present,
    /// whichever arrived first.
    pub fn get_state_event(&self, room_id: &String, event_type: &String, state_key: &String)
        -> (r: Option<(StateEvent, bool)>)
        requires
            self.inv(),
        ensures
            match r {
                Some(er) => {
                    &&& self.contents().state.contains_key(room_id@)
                    &&& self.contents().state[room_id@].contains_key(event_type@)
                    &&& self.contents().state[room_id@][event_type@].contains_key(state_key@)
                    &&& er.0@ == self.contents().state[room_id@][event_type@][state_key@]
                    &&& er.1 == (self.contents().redactions.contains_key(room_id@)
                        && self.contents().redactions[room_id@].contains_key(er.0@.event_id))
                },
                None => !(self.contents().state.contains_key(room_id@)
                    && self.contents().state[room_id@].contains_key(event_type@)
                    && self.contents().state[room_id@][event_type@].contains_key(state_key@)),
            },
    {
        match self.state.get(room_id) {
            Some(room_map) => match room_map.get(event_type) {
                Some(type_map) => match type_map.get(state_key) {
                    Some(ev) => {
                        let redacted = match self.redactions.get(room_id) {
                            Some(room_redactions) => room_redactions.contains_key(&ev.event_id),
                            None => false,
                        };
                        Some((ev.clone(), redacted))
                    },
                    None => None,
                },
                None => None,
            },
            None => None,
        }
    }
}

impl StateStore for MemoryStore {
    /// Every constituent map is well-formed and records stand under their
    /// own room id.
    open(crate) spec fn inv(&self) -> bool {
        &&& self.records.wf()
        &&& self.kv.wf()
        &&& self.state.wf()
        &&& self.redactions.wf()
        &&& self.receipts.wf()
        &&& self.account_data.wf()
        &&& self.presence.wf()
        &&& self.room_account_data.wf()
        &&& self.stripped_state.wf()
        &&& forall|k: Seq<char>|
            self.records@.contains_key(k) ==> (#[trigger] self.records@[k]).room_id == k
    }

    open(crate) spec fn contents(&self) -> StoreContents {
        StoreContents {
            records: self.records@,
            kv: self.kv@,
            state: self.state@,
            redactions: self.redactions@,
            receipts: self.receipts@,
            account_data: self.account_data@,
            presence: self.presence@,
            room_account_data: self.room_account_data@,
            stripped_state: self.stripped_state@,
        }
    }

    fn get_room_records(&self) -> (r: Result<Vec<RoomRecord>, StoreError>) {
        let mut out: Vec<RoomRecord> = Vec::new();
        let n: usize = self.records.len();
        let mut i: usize = 0;
        proof {
            self.records.lemma_keys();
            assert(out.deep_view() =~= Seq::<crate::rooms::RoomRecordV>::empty());
        }
        while i < n
            invariant
                self.inv(),
                n == self.records.keys_seq().len(),
                0 <= i <= n,
                out.deep_view().len() == i,
                forall|j: int|
                    0 <= j < i ==> #[trigger] out.deep_view()[j] == self.records@[
                        self.records.keys_seq()[j]] && out.deep_view()[j].room_id
                        == self.records.keys_seq()[j],
            decreases n - i,
        {
            let ghost pre = out.deep_view();
            proof {
                self.records.lemma_keys();
            }
            let v = self.records.value_at(i);
            proof {
                assert(self.records.keys_seq().contains(self.records.keys_seq()[i as int]));
                assert(self.records@.contains_key(self.records.keys_seq()[i as int]));
            }
            out.push(v.clone());
            proof {
                assert(out.deep_view() =~= pre.push(v@));
            }
            i += 1;
        }
        proof {
            self.records.lemma_keys();
            let list = out.deep_view();
            let m = self.contents().records;
            assert forall|k: Seq<char>| m.contains_key(k) implies exists|j: int|
                0 <= j < list.len() && list[j].room_id == k by {
                assert(self.records.keys_seq().contains(k));
                let j = choose|j: int|
                    0 <= j < self.records.keys_seq().len() && self.records.keys_seq()[j] == k;
                assert(list[j].room_id == k);
            }
            assert forall|i2: int, j2: int|
                0 <= i2 < j2 < list.len() implies list[i2].room_id != list[j2].room_id by {
                assert(self.records.keys_seq()[i2] != self.records.keys_seq()[j2]);
            }
            assert forall|i2: int|
                0 <= i2 < list.len() implies m.contains_key(#[trigger] list[i2].room_id)
                && m[list[i2].room_id] == list[i2] by {
                assert(list[i2] == self.records@[self.records.keys_seq()[i2]]);
                assert(list[i2].room_id == self.records.keys_seq()[i2]);
                assert(self.records.keys_seq().contains(self.records.keys_seq()[i2]));
            }
        }
        Ok(out)
    }

    fn save_changes(&mut self, changes: StateChanges) -> (r: Result<(), StoreError>) {
        let ghost pre = self.contents();
        let ghost chv = changes@;
        self.records.merge_from(changes.room_infos);
        if let Some(t) = changes.sync_token {
            self.kv.insert(String::from_str("sync_token"), t);
        }
        self.state.merge_nested3_from(changes.state);
        self.redactions.merge_nested2_from(changes.redactions);
        self.receipts.merge_from(changes.receipts);
        self.account_data.merge_from(changes.account_data);
        self.presence.merge_from(changes.presence);
        self.room_account_data.merge_nested2_from(changes.room_account_data);
        self.stripped_state.merge_nested3_from(changes.stripped_state);
        proof {
            let target = apply_changes(pre, chv);
            assert(self.kv@ =~= target.kv);
            assert(self.contents() == target);
            assert forall|k: Seq<char>|
                self.records@.contains_key(k) implies (#[trigger] self.records@[k]).room_id
                == k by {
                if chv.room_infos.contains_key(k) {
                    assert(chv.room_infos[k].room_id == k);
                } else {
                    assert(pre.records[k].room_id == k);
                }
            }
        }
        Ok(())
    }

    fn remove_room(&mut self, room_id: &String) -> (r: Result<(), StoreError>) {
        let ghost pre = self.contents();
        self.records.remove(room_id);
        self.state.remove(room_id);
        self.redactions.remove(room_id);
        self.receipts.remove(room_id);
        self.room_account_data.remove(room_id);
        self.stripped_state.remove(room_id);
        proof {
            assert(self.contents() == remove_room_contents(pre, room_id@));
        }
        Ok(())
    }

    fn get_kv(&self, key: &String) -> (r: Result<Option<String>, StoreError>) {
        match self.kv.get(key) {
            Some(v) => Ok(Some(v.clone())),
            None => Ok(None),
        }
    }

    fn set_kv(&mut self, key: String, value: String) -> (r: Result<(), StoreError>) {
        self.kv.insert(key, value);
        proof {
            assert(self.contents() == (StoreContents {
                kv: old(self).contents().kv.insert(key@, value@),
                ..old(self).contents()
            }));
        }
        Ok(())
    }
}

} // verus!
