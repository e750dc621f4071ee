use vstd::prelude::*;
use crate::changes::{StateChanges, StateChangesV};
use crate::errors::StoreError;
use crate::observable_map::{
    has_room, lemma_append_preserves, lemma_update_preserves, room_of, ObservableMap,
    RoomListDiff, RoomListDiffV,
};
use crate::rooms::{
    migrated_record, Room, RoomRecord, RoomRecordV, RoomState, RoomStateFilter, RoomV,
    ROOM_RECORD_FORMAT_VERSION,
};
use crate::traits::{
    apply_changes, records_match_map, remove_room_contents, sync_token_key, StateStore,
    StoreContents,
};

verus! {

/// The session identity: a stable user id and device id, set exactly once
/// per store instance.
pub struct SessionMeta {
    /// The own user's id.
    pub user_id: String,
    /// The own device's id.
    pub device_id: String,
}

/// Mathematical mirror of [`SessionMeta`].
pub struct SessionMetaV {
    pub user_id: Seq<char>,
    pub device_id: Seq<char>,
}

impl View for SessionMeta {
    type V = SessionMetaV;

    open spec fn view(&self) -> SessionMetaV {
        SessionMetaV { user_id: self.user_id@, device_id: self.device_id@ }
    }
}

impl DeepView for SessionMeta {
    type V = SessionMetaV;

    open spec fn deep_view(&self) -> SessionMetaV {
        self.view()
    }
}

impl Clone for SessionMeta {
    fn clone(&self) -> (r: Self)
        ensures
            r@ == self@,
    {
        SessionMeta { user_id: self.user_id.clone(), device_id: self.device_id.clone() }
    }
}

/// The live room built from a persisted record for the given user.
pub open spec fn restored_room(user_id: Seq<char>, record: RoomRecordV) -> RoomV {
    RoomV { user_id: user_id, record: record }
}

/// A record brought to the current format version.
pub open spec fn migrate_if_old(r: RoomRecordV) -> RoomRecordV {
    if r.version < ROOM_RECORD_FORMAT_VERSION {
        migrated_record(r)
    } else {
        r
    }
}

/// Every record of `m` brought to the current format version.
pub open spec fn migrated_map(m: Map<Seq<char>, RoomRecordV>) -> Map<Seq<char>, RoomRecordV> {
    Map::new(|k: Seq<char>| m.contains_key(k), |k: Seq<char>| migrate_if_old(m[k]))
}

/// The rooms of `s` whose membership state passes `f`, in order.
pub open spec fn filtered_rooms(s: Seq<RoomV>, f: RoomStateFilter) -> Seq<RoomV>
    decreases s.len(),
{
    if s.len() == 0 {
        Seq::empty()
    } else if f.spec_matches(s.last().record.state) {
        filtered_rooms(s.drop_last(), f).push(s.last())
    } else {
        filtered_rooms(s.drop_last(), f)
    }
}

/// The state store façade: it owns the observable room table, the session
/// identity, the latest synchronization cursor, and the latch that
/// serializes synchronization-driven writes.
pub struct BaseStateStore<S: StateStore> {
    pub(crate) inner: S,
    pub(crate) session_meta: Option<SessionMeta>,
    pub(crate) sync_token: Option<String>,
    pub(crate) rooms: ObservableMap,
    pub(crate) sync_latch: bool,
}

impl<S: StateStore> BaseStateStore<S> {
    /// Well-formed: the backend and the room table are.
    pub open(crate) spec fn inv(&self) -> bool {
        &&& self.inner.inv()
        &&& self.rooms.wf()
    }

    /// The committed session identity, if any.
    pub open(crate) spec fn session(&self) -> Option<SessionMetaV> {
        self.session_meta.deep_view()
    }

    /// Whether the session identity was committed.
    pub open(crate) spec fn session_set(&self) -> bool {
        self.session() is Some
    }

    /// What the durable backend holds.
    pub open(crate) spec fn contents(&self) -> StoreContents {
        self.inner.contents()
    }

    /// The live room sequence.
    pub open(crate) spec fn rooms_seq(&self) -> Seq<RoomV> {
        self.rooms.rooms_view()
    }

    /// The full diff log of the room table.
    pub open(crate) spec fn log_seq(&self) -> Seq<RoomListDiffV> {
        self.rooms.log_view()
    }

    /// The synchronization cursor held in memory.
    pub open(crate) spec fn token(&self) -> Option<Seq<char>> {
        self.sync_token.deep_view()
    }

    /// Whether the synchronization latch is held.
    pub open(crate) spec fn latch_held(&self) -> bool {
        self.sync_latch
    }

    /// The backend, as a value.
    pub open(crate) spec fn inner_view(&self) -> S {
        self.inner
    }

    /// Everything but the latch is as in `other`.
    pub open(crate) spec fn same_but_latch(&self, other: Self) -> bool {
        &&& self.inner == other.inner
        &&& self.session_meta == other.session_meta
        &&& self.sync_token == other.sync_token
        &&& self.rooms == other.rooms
    }

    /// A new store over the given backend: no session, no cursor, no
    /// rooms, the latch free.
    pub fn new(inner: S) -> (r: Self)
        requires
            inner.inv(),
        ensures
            r.inv(),
            r.contents() == inner.contents(),
            !r.session_set(),
            r.token() is None,
            r.rooms_seq() =~= Seq::<RoomV>::empty(),
            r.log_seq() =~= Seq::<RoomListDiffV>::empty(),
            !r.latch_held(),
    {
        BaseStateStore {
            inner,
            session_meta: None,
            sync_token: None,
            rooms: ObservableMap::new(),
            sync_latch: false,
        }
    }

    /// The backend the façade wraps.
    pub fn inner(&self) -> (r: &S)
        ensures
            *r == self.inner_view(),
    {
        &self.inner
    }

    /// Takes the synchronization latch, so that two synchronization cycles
    /// cannot interleave their writes; reports whether it was free.
    /// Nothing else changes, and reads never take the latch.
    pub fn sync_lock(&mut self) -> (acquired: bool)
        ensures
            acquired == !old(self).latch_held(),
            final(self).latch_held(),
            final(self).same_but_latch(*old(self)),
    {
        let acquired = !self.sync_latch;
        self.sync_latch = true;
        acquired
    }

    /// Releases the synchronization latch. Nothing else changes.
    pub fn sync_unlock(&mut self)
        ensures
            !final(self).latch_held(),
            final(self).same_but_latch(*old(self)),
    {
        self.sync_latch = false;
    }

    /// The committed session identity, if any.
    pub fn session_meta(&self) -> (r: Option<&SessionMeta>)
        ensures
            match r {
                Some(m) => self.session() == Some(m@),
                None => self.session() is None,
            },
    {
        match &self.session_meta {
            Some(m) => Some(m),
            None => None,
        }
    }

    /// The synchronization cursor held in memory.
    pub fn sync_token(&self) -> (r: &Option<String>)
        ensures
            r.deep_view() == self.token(),
    {
        &self.sync_token
    }

    /// Diff-stream replay: a subscriber that took the sequence at some
    /// cursor as its baseline and replays the diffs logged since then
    /// reconstructs the current room sequence exactly.
    pub proof fn lemma_stream_replay(&self, cursor: int)
        requires
            self.inv(),
            0 <= cursor <= self.log_seq().len(),
        ensures
            crate::observable_map::replay(
                crate::observable_map::replay(
                    Seq::<RoomV>::empty(),
                    self.log_seq().take(cursor),
                ),
                self.log_seq().skip(cursor),
            ) == self.rooms_seq(),
    {
        self.rooms.lemma_replay_from_cursor(cursor);
    }

    /// A snapshot of all rooms the store knows, in table order; no
    /// ordering guarantee beyond a valid snapshot at call time.
    pub fn rooms(&self) -> (r: Vec<Room>)
        ensures
            r.deep_view() == self.rooms_seq(),
    {
        self.rooms.snapshot()
    }

    /// A snapshot of the rooms whose membership state passes `filter`.
    pub fn rooms_filtered(&self, filter: RoomStateFilter) -> (r: Vec<Room>)
        ensures
            r.deep_view() == filtered_rooms(self.rooms_seq(), filter),
    {
        let mut out: Vec<Room> = Vec::new();
        let n: usize = self.rooms.len();
        let mut i: usize = 0;
        proof {
            assert(out.deep_view() =~= filtered_rooms(self.rooms_seq().take(0), filter));
        }
        while i < n
            invariant
                n == self.rooms_seq().len(),
                0 <= i <= n,
                out.deep_view() == filtered_rooms(self.rooms_seq().take(i as int), filter),
            decreases n - i,
        {
            let ghost pre = out.deep_view();
            let room = self.rooms.get_at(i);
            if filter.matches(room.state()) {
                out.push(room.clone());
                proof {
                    assert(out.deep_view() =~= pre.push(self.rooms_seq()[i as int]));
                }
            }
            proof {
                let s = self.rooms_seq();
                assert(s.take(i + 1).drop_last() =~= s.take(i as int));
                assert(s.take(i + 1).last() == s[i as int]);
            }
            i += 1;
        }
        proof {
            assert(self.rooms_seq().take(n as int) =~= self.rooms_seq());
        }
        out
    }

    /// Subscribes to the room table: the current sequence as a baseline,
    /// and the cursor from which future diffs are read, so that a late
    /// subscriber never derives an inconsistent view from diffs alone.
    pub fn rooms_stream(&self) -> (r: (Vec<Room>, usize))
        requires
            self.inv(),
        ensures
            r.0.deep_view() == self.rooms_seq(),
            r.1 == self.log_seq().len(),
    {
        self.rooms.stream()
    }

    /// The diffs logged since `cursor`, and the new cursor.
    pub fn rooms_diffs_since(&self, cursor: usize) -> (r: (Vec<RoomListDiff>, usize))
        requires
            cursor <= self.log_seq().len(),
        ensures
            r.0.deep_view() == self.log_seq().skip(cursor as int),
            r.1 == self.log_seq().len(),
    {
        self.rooms.diffs_since(cursor)
    }

    /// The room with the given id, if the table knows it.
    pub fn room(&self, room_id: &String) -> (r: Option<Room>)
        requires
            self.inv(),
        ensures
            match r {
                Some(room) => has_room(self.rooms_seq(), room_id@) && room@ == room_of(
                    self.rooms_seq(),
                    room_id@,
                ),
                None => !has_room(self.rooms_seq(), room_id@),
            },
    {
        match self.rooms.get(room_id) {
            Some(room) => Some(room.clone()),
            None => None,
        }
    }

    /// Whether a room with the given id exists.
    pub fn room_exists(&self, room_id: &String) -> (b: bool)
        requires
            self.inv(),
        ensures
            b == has_room(self.rooms_seq(), room_id@),
    {
        match self.rooms.get(room_id) {
            Some(_) => true,
            None => false,
        }
    }

    /// The room with the given id, or a fresh one in the given membership
    /// state if the table has none: an existing room is handed back
    /// unchanged, never silently overwritten. A committed session
    /// identity is required — creating a room without one is a lifecycle
    /// violation.
    pub fn get_or_create_room(&mut self, room_id: &String, room_type: RoomState) -> (r: Room)
        requires
            old(self).inv(),
            old(self).session_set(),
        ensures
            final(self).inv(),
            final(self).session() == old(self).session(),
            final(self).token() == old(self).token(),
            final(self).contents() == old(self).contents(),
            final(self).latch_held() == old(self).latch_held(),
            has_room(old(self).rooms_seq(), room_id@) ==> {
                &&& r@ == room_of(old(self).rooms_seq(), room_id@)
                &&& *final(self) == *old(self)
            },
            !has_room(old(self).rooms_seq(), room_id@) ==> {
                &&& r@ == restored_room(
                    old(self).session().unwrap().user_id,
                    crate::rooms::fresh_record(room_id@, room_type),
                )
                &&& final(self).rooms_seq() =~= old(self).rooms_seq().push(r@)
                &&& final(self).log_seq() =~= old(self).log_seq().push(
                    RoomListDiffV::Insert { index: old(self).rooms_seq().len() as int, room: r@ },
                )
            },
    {
        if let Some(room) = self.rooms.get(room_id) {
            return room.clone();
        }
        let user_id = match &self.session_meta {
            Some(m) => m.user_id.clone(),
            None => {
                proof {
                    assert(false);
                }
                String::new()
            },
        };
        let room = Room::new(user_id, room_id.clone(), room_type);
        self.rooms.insert(room.clone());
        room
    }

    /// Forgets the room with the given id: first from the durable store,
    /// then from the room table. If the durable removal fails, the table
    /// is left untouched, so memory never runs ahead of durable state;
    /// and forgetting a room that neither the backend nor the table knows
    /// is a no-op, not an error.
    pub fn forget_room(&mut self, room_id: &String) -> (r: Result<(), StoreError>)
        requires
            old(self).inv(),
        ensures
            final(self).inv(),
            final(self).session() == old(self).session(),
            final(self).token() == old(self).token(),
            final(self).latch_held() == old(self).latch_held(),
            match r {
                Ok(u) => {
                    &&& final(self).contents() == remove_room_contents(
                        old(self).contents(),
                        room_id@,
                    )
                    &&& !has_room(final(self).rooms_seq(), room_id@)
                    &&& has_room(old(self).rooms_seq(), room_id@) ==> {
                        &&& final(self).rooms_seq() =~= old(self).rooms_seq().remove(
                            crate::observable_map::spec_index_of(old(self).rooms_seq(), room_id@),
                        )
                        &&& final(self).log_seq() =~= old(self).log_seq().push(
                            RoomListDiffV::Remove {
                                index: crate::observable_map::spec_index_of(
                                    old(self).rooms_seq(),
                                    room_id@,
                                ),
                            },
                        )
                    }
                    &&& !has_room(old(self).rooms_seq(), room_id@) ==> final(self).rooms_seq()
                        =~= old(self).rooms_seq() && final(self).log_seq() =~= old(self).log_seq()
                },
                Err(_) => {
                    &&& final(self).contents() == old(self).contents()
                    &&& final(self).rooms_seq() =~= old(self).rooms_seq()
                    &&& final(self).log_seq() =~= old(self).log_seq()
                },
            },
            !old(self).contents().records.contains_key(room_id@) ==> r is Ok,
    {
        match self.inner.remove_room(room_id) {
            Ok(_) => {
                self.rooms.remove(room_id);
                Ok(())
            },
            Err(e) => Err(e),
        }
    }

    /// Loads the persisted room records and brings each to the current
    /// format version. A record that had to be migrated is queued for
    /// immediate re-persistence, so the migration is not repeated at the
    /// next start; a failure of that re-persistence is tolerated — the
    /// records handed back carry the migrated shape either way.
    fn load_room_infos(&mut self) -> (r: Result<Vec<RoomRecord>, StoreError>)
        requires
            old(self).inv(),
        ensures
            final(self).inv(),
            final(self).session() == old(self).session(),
            final(self).token() == old(self).token(),
            final(self).latch_held() == old(self).latch_held(),
            final(self).rooms_seq() == old(self).rooms_seq(),
            final(self).log_seq() == old(self).log_seq(),
            final(self).contents().kv == old(self).contents().kv,
            final(self).contents().state == old(self).contents().state,
            final(self).contents().redactions == old(self).contents().redactions,
            final(self).contents().receipts == old(self).contents().receipts,
            final(self).contents().account_data == old(self).contents().account_data,
            final(self).contents().presence == old(self).contents().presence,
            final(self).contents().room_account_data == old(self).contents().room_account_data,
            final(self).contents().stripped_state == old(self).contents().stripped_state,
            match r {
                Ok(list) => {
                    &&& records_match_map(
                        list.deep_view(),
                        migrated_map(old(self).contents().records),
                    )
                    &&& {
                        ||| final(self).contents().records == old(self).contents().records
                        ||| final(self).contents().records == migrated_map(
                            old(self).contents().records,
                        )
                    }
                },
                Err(_) => final(self).contents().records == old(self).contents().records,
            },
    {
        let loaded = match self.inner.get_room_records() {
            Ok(list) => list,
            Err(e) => {
                return Err(e);
            },
        };
        let ghost m = self.contents().records;
        let ghost lv = loaded.deep_view();
        let mut out: Vec<RoomRecord> = Vec::new();
        let mut changes = StateChanges::new_without_token();
        let mut any_migrated = false;
        let n: usize = loaded.len();
        let mut i: usize = 0;
        proof {
            assert(out.deep_view() =~= Seq::<RoomRecordV>::empty());
        }
        while i < n
            invariant
                n == loaded.len(),
                0 <= i <= n,
                lv == loaded.deep_view(),
                records_match_map(lv, m),
                out.deep_view().len() == i,
                forall|j: int|
                    0 <= j < i ==> #[trigger] out.deep_view()[j] == migrate_if_old(lv[j]),
                changes.wf(),
                changes@ == (StateChangesV {
                    room_infos: changes@.room_infos,
                    ..crate::changes::empty_changes(None)
                }),
                forall|k: Seq<char>|
                    #[trigger] changes@.room_infos.contains_key(k) <==> exists|j: int|
                        0 <= j < i && lv[j].room_id == k && lv[j].version
                            < ROOM_RECORD_FORMAT_VERSION,
                forall|k: Seq<char>|
                    changes@.room_infos.contains_key(k) ==> #[trigger] changes@.room_infos[k]
                        == migrate_if_old(m[k]),
            decreases n - i,
        {
            let ghost pre_out = out.deep_view();
            let ghost pre_batch = changes@.room_infos;
            let mut rec = loaded[i].clone();
            proof {
                assert(rec@ == lv[i as int]);
            }
            let migrated = rec.apply_migrations();
            if migrated {
                changes.add_room(rec.clone());
                any_migrated = true;
                proof {
                    assert(rec@ == migrate_if_old(lv[i as int]));
                    assert(rec@.room_id == lv[i as int].room_id);
                    assert(m.contains_key(lv[i as int].room_id) && m[lv[i as int].room_id]
                        == lv[i as int]);
                    assert(changes@.room_infos =~= pre_batch.insert(lv[i as int].room_id, rec@));
                    assert forall|k: Seq<char>|
                        #[trigger] changes@.room_infos.contains_key(k) <==> exists|j: int|
                            0 <= j < i + 1 && lv[j].room_id == k && lv[j].version
                                < ROOM_RECORD_FORMAT_VERSION by {
                        if changes@.room_infos.contains_key(k) {
                            if k == lv[i as int].room_id {
                                assert(lv[i as int].room_id == k && lv[i as int].version
                                    < ROOM_RECORD_FORMAT_VERSION);
                            } else {
                                let j = choose|j: int|
                                    0 <= j < i && lv[j].room_id == k && lv[j].version
                                        < ROOM_RECORD_FORMAT_VERSION;
                                assert(0 <= j < i + 1 && lv[j].room_id == k);
                            }
                        }
                        if exists|j: int|
                            0 <= j < i + 1 && lv[j].room_id == k && lv[j].version
                                < ROOM_RECORD_FORMAT_VERSION {
                            let j = choose|j: int|
                                0 <= j < i + 1 && lv[j].room_id == k && lv[j].version
                                    < ROOM_RECORD_FORMAT_VERSION;
                            if j < i {
                            } else {
                                assert(k == lv[i as int].room_id);
                            }
                        }
                    }
                }
            } else {
                proof {
                    assert(rec@ == migrate_if_old(lv[i as int]));
                    assert forall|k: Seq<char>|
                        #[trigger] changes@.room_infos.contains_key(k) <==> exists|j: int|
                            0 <= j < i + 1 && lv[j].room_id == k && lv[j].version
                                < ROOM_RECORD_FORMAT_VERSION by {
                        if exists|j: int|
                            0 <= j < i + 1 && lv[j].room_id == k && lv[j].version
                                < ROOM_RECORD_FORMAT_VERSION {
                            let j = choose|j: int|
                                0 <= j < i + 1 && lv[j].room_id == k && lv[j].version
                                    < ROOM_RECORD_FORMAT_VERSION;
                            assert(j < i);
                        }
                    }
                }
            }
            out.push(rec);
            proof {
                assert(out.deep_view() =~= pre_out.push(migrate_if_old(lv[i as int])));
            }
            i += 1;
        }
        proof {
            // The returned list carries the migrated shape of every record.
            let outs = out.deep_view();
            let mm = migrated_map(m);
            assert forall|j: int, j2: int|
                0 <= j < j2 < outs.len() implies outs[j].room_id != outs[j2].room_id by {
                assert(outs[j].room_id == lv[j].room_id && outs[j2].room_id == lv[j2].room_id);
            }
            assert forall|j: int|
                0 <= j < outs.len() implies mm.contains_key(#[trigger] outs[j].room_id)
                && mm[outs[j].room_id] == outs[j] by {
                assert(outs[j].room_id == lv[j].room_id);
                assert(m.contains_key(lv[j].room_id) && m[lv[j].room_id] == lv[j]);
            }
            assert forall|k: Seq<char>| mm.contains_key(k) implies exists|j: int|
                0 <= j < outs.len() && outs[j].room_id == k by {
                let j = choose|j: int| 0 <= j < lv.len() && lv[j].room_id == k;
                assert(outs[j].room_id == k);
            }
        }
        if any_migrated {
            let ghost pre_contents = self.contents();
            let ghost batch = changes@;
            let saved = self.inner.save_changes(changes);
            proof {
                if saved is Ok {
                    let target = apply_changes(pre_contents, batch);
                    assert(self.contents().kv =~= pre_contents.kv);
                    assert(self.contents().state =~~= pre_contents.state);
                    assert(self.contents().redactions =~~= pre_contents.redactions);
                    assert(self.contents().receipts =~= pre_contents.receipts);
                    assert(self.contents().account_data =~= pre_contents.account_data);
                    assert(self.contents().presence =~= pre_contents.presence);
                    assert(self.contents().room_account_data =~~= pre_contents.room_account_data);
                    assert(self.contents().stripped_state =~~= pre_contents.stripped_state);
                    assert forall|k: Seq<char>|
                        true implies #[trigger] self.contents().records.contains_key(k)
                        == migrated_map(m).contains_key(k) && (migrated_map(m).contains_key(k)
                        ==> self.contents().records[k] == migrated_map(m)[k]) by {
                        if batch.room_infos.contains_key(k) {
                            assert(m.contains_key(k));
                        }
                        if m.contains_key(k) {
                            let j = choose|j: int| 0 <= j < lv.len() && lv[j].room_id == k;
                            if lv[j].version < ROOM_RECORD_FORMAT_VERSION {
                                assert(batch.room_infos.contains_key(k));
                            } else {
                                assert(migrate_if_old(m[k]) == m[k]);
                                if batch.room_infos.contains_key(k) {
                                    let j2 = choose|j2: int|
                                        0 <= j2 < lv.len() && lv[j2].room_id == k && lv[j2].version
                                            < ROOM_RECORD_FORMAT_VERSION;
                                    assert(lv[j2] == m[k]);
                                }
                            }
                        }
                    }
                    assert(self.contents().records =~= migrated_map(m));
                }
            }
        }
        Ok(out)
    }

    /// Commits the session identity and, where persisted state exists,
    /// reloads the session: every persisted room record is loaded,
    /// migrated to the current format and restored as a live room in the
    /// table, the synchronization cursor is read back, and only then is
    /// the identity committed — it never becomes visible while the table
    /// is still empty. Committing a session identity twice is a lifecycle
    /// violation, ruled out by contract rather than recovered from.
    pub fn set_or_reload_session(&mut self, session_meta: SessionMeta) -> (r: Result<
        (),
        StoreError,
    >)
        requires
            old(self).inv(),
            !old(self).session_set(),
        ensures
            final(self).inv(),
            final(self).latch_held() == old(self).latch_held(),
            match r {
                Ok(u) => {
                    let mig = migrated_map(old(self).contents().records);
                    &&& final(self).session() == Some(session_meta@)
                    &&& forall|k: Seq<char>|
                        #[trigger] mig.contains_key(k) ==> has_room(final(self).rooms_seq(), k)
                            && room_of(final(self).rooms_seq(), k) == restored_room(
                            session_meta@.user_id,
                            mig[k],
                        )
                    &&& forall|id: Seq<char>|
                        !mig.contains_key(id) ==> (has_room(final(self).rooms_seq(), id)
                            == has_room(old(self).rooms_seq(), id) && (has_room(
                            old(self).rooms_seq(),
                            id,
                        ) ==> #[trigger] room_of(final(self).rooms_seq(), id) == room_of(
                            old(self).rooms_seq(),
                            id,
                        )))
                    &&& final(self).token() == (if old(self).contents().kv.contains_key(
                        sync_token_key(),
                    ) {
                        Some(old(self).contents().kv[sync_token_key()])
                    } else {
                        None
                    })
                    &&& final(self).contents().kv == old(self).contents().kv
                    &&& {
                        ||| final(self).contents().records == old(self).contents().records
                        ||| final(self).contents().records == migrated_map(
                            old(self).contents().records,
                        )
                    }
                },
                Err(_) => !final(self).session_set(),
            },
    {
        let records = match self.load_room_infos() {
            Ok(list) => list,
            Err(e) => {
                return Err(e);
            },
        };
        let ghost mig = migrated_map(old(self).contents().records);
        let ghost lv = records.deep_view();
        let ghost rooms0 = self.rooms_seq();
        let ghost inner1 = self.inner;
        let n: usize = records.len();
        let mut i: usize = 0;
        while i < n
            invariant
                n == records.len(),
                0 <= i <= n,
                lv == records.deep_view(),
                records_match_map(lv, mig),
                self.inv(),
                self.inner == inner1,
                self.session() == old(self).session(),
                self.token() == old(self).token(),
                self.latch_held() == old(self).latch_held(),
                forall|j: int|
                    0 <= j < i ==> has_room(self.rooms_seq(), #[trigger] lv[j].room_id)
                        && room_of(self.rooms_seq(), lv[j].room_id) == restored_room(
                        session_meta@.user_id,
                        lv[j],
                    ),
                forall|id: Seq<char>| #![trigger has_room(rooms0, id)]
                    !(exists|j: int| 0 <= j < i && #[trigger] lv[j].room_id == id) ==> (has_room(
                        self.rooms_seq(),
                        id,
                    ) == has_room(rooms0, id) && (has_room(rooms0, id) ==> room_of(
                        self.rooms_seq(),
                        id,
                    ) == room_of(rooms0, id))),
            decreases n - i,
        {
            let ghost pre = self.rooms_seq();
            let rec = records[i].clone();
            let room = Room::restore(session_meta.user_id.clone(), rec);
            proof {
                assert(room@ == restored_room(session_meta@.user_id, lv[i as int]));
                if has_room(pre, room@.record.room_id) {
                    let w = crate::observable_map::spec_index_of(pre, room@.record.room_id);
                    assert(0 <= w < pre.len() && pre[w].record.room_id == room@.record.room_id);
                    lemma_update_preserves(pre, w, room@);
                } else {
                    lemma_append_preserves(pre, room@);
                }
            }
            self.rooms.insert(room);
            proof {
                let cur = self.rooms_seq();
                let newid = lv[i as int].room_id;
                if has_room(pre, newid) {
                    assert(cur =~= pre.update(
                        crate::observable_map::spec_index_of(pre, newid),
                        restored_room(session_meta@.user_id, lv[i as int]),
                    ));
                } else {
                    assert(cur =~= pre.push(restored_room(session_meta@.user_id, lv[i as int])));
                }
                assert forall|j: int|
                    0 <= j < i + 1 implies has_room(cur, #[trigger] lv[j].room_id) && room_of(
                    cur,
                    lv[j].room_id,
                ) == restored_room(session_meta@.user_id, lv[j]) by {
                    if j < i {
                        assert(lv[j].room_id != newid);
                        assert(has_room(cur, lv[j].room_id) == has_room(pre, lv[j].room_id));
                        assert(room_of(cur, lv[j].room_id) == room_of(pre, lv[j].room_id));
                    }
                }
                assert forall|id: Seq<char>| #![trigger has_room(rooms0, id)]
                    !(exists|j: int| 0 <= j < i + 1 && #[trigger] lv[j].room_id == id) implies (
                has_room(cur, id) == has_room(rooms0, id) && (has_room(rooms0, id) ==> room_of(
                    cur,
                    id,
                ) == room_of(rooms0, id))) by {
                    if id == newid {
                        assert(lv[i as int].room_id == id);
                        assert(false);
                    }
                    assert(!(exists|j: int| 0 <= j < i && #[trigger] lv[j].room_id == id));
                    assert(has_room(cur, id) == has_room(pre, id));
                    if has_room(rooms0, id) {
                        assert(has_room(pre, id));
                        assert(room_of(cur, id) == room_of(pre, id));
                    }
                }
            }
            i += 1;
        }
        let token_key = String::from_str("sync_token");
        let token = match self.inner.get_kv(&token_key) {
            Ok(t) => t,
            Err(e) => {
                return Err(e);
            },
        };
        self.sync_token = token;
        self.session_meta = Some(session_meta);
        proof {
            assert forall|k: Seq<char>| #[trigger] mig.contains_key(k) implies has_room(
                self.rooms_seq(),
                k,
            ) && room_of(self.rooms_seq(), k) == restored_room(
                self.session().unwrap().user_id,
                mig[k],
            ) by {
                let j = choose|j: int| 0 <= j < lv.len() && lv[j].room_id == k;
                assert(has_room(self.rooms_seq(), lv[j].room_id));
            }
            assert forall|id: Seq<char>| !mig.contains_key(id) implies (has_room(
                self.rooms_seq(),
                id,
            ) == has_room(old(self).rooms_seq(), id) && (has_room(old(self).rooms_seq(), id)
                ==> #[trigger] room_of(self.rooms_seq(), id) == room_of(
                old(self).rooms_seq(),
                id,
            ))) by {
                if exists|j: int| 0 <= j < n && #[trigger] lv[j].room_id == id {
                    let j = choose|j: int| 0 <= j < n && #[trigger] lv[j].room_id == id;
                    assert(mig.contains_key(lv[j].room_id));
                }
                assert(has_room(rooms0, id) == has_room(old(self).rooms_seq(), id));
            }
        }
        Ok(())
    }

    /// As `set_or_reload_session`, with the identity taken from another
    /// store; a source store without a committed identity makes this a
    /// no-op.
    pub fn set_or_reload_session_from_other(&mut self, other: &BaseStateStore<S>) -> (r: Result<
        (),
        StoreError,
    >)
        requires
            old(self).inv(),
            other.session_set() ==> !old(self).session_set(),
        ensures
            final(self).inv(),
            !other.session_set() ==> *final(self) == *old(self) && r is Ok,
            other.session_set() && r is Ok ==> final(self).session() == other.session(),
    {
        let meta = match &other.session_meta {
            Some(m) => m.clone(),
            None => {
                return Ok(());
            },
        };
        self.set_or_reload_session(meta)
    }

    /// Applies one synchronization cycle's batch: the batch is written to
    /// the durable store as a whole; only when that succeeded are the
    /// batch's room records upserted into the live table and the cursor
    /// advanced, so a failed write never advances the cursor and the next
    /// cycle retries cleanly. The synchronization latch must be held, so
    /// that two cycles cannot interleave.
    pub fn apply_state_changes(&mut self, changes: StateChanges) -> (r: Result<(), StoreError>)
        requires
            old(self).inv(),
            old(self).session_set(),
            old(self).latch_held(),
            changes.wf(),
        ensures
            final(self).inv(),
            final(self).session() == old(self).session(),
            final(self).latch_held(),
            match r {
                Ok(u) => {
                    &&& final(self).contents() == apply_changes(old(self).contents(), changes@)
                    &&& forall|k: Seq<char>|
                        #[trigger] changes@.room_infos.contains_key(k) ==> has_room(
                            final(self).rooms_seq(),
                            k,
                        ) && room_of(final(self).rooms_seq(), k) == restored_room(
                            old(self).session().unwrap().user_id,
                            changes@.room_infos[k],
                        )
                    &&& forall|id: Seq<char>|
                        !changes@.room_infos.contains_key(id) ==> (has_room(
                            final(self).rooms_seq(),
                            id,
                        ) == has_room(old(self).rooms_seq(), id) && (has_room(
                            old(self).rooms_seq(),
                            id,
                        ) ==> #[trigger] room_of(final(self).rooms_seq(), id) == room_of(
                            old(self).rooms_seq(),
                            id,
                        )))
                    &&& final(self).token() == (match changes@.sync_token {
                        Some(t) => Some(t),
                        None => old(self).token(),
                    })
                },
                Err(_) => {
                    &&& final(self).contents() == old(self).contents()
                    &&& final(self).rooms_seq() == old(self).rooms_seq()
                    &&& final(self).log_seq() == old(self).log_seq()
                    &&& final(self).token() == old(self).token()
                },
            },
    {
        let user_id = match &self.session_meta {
            Some(m) => m.user_id.clone(),
            None => {
                proof {
                    assert(false);
                }
                String::new()
            },
        };
        // Collect the record upserts before the batch is consumed.
        let mut new_records: Vec<RoomRecord> = Vec::new();
        let m: usize = changes.room_infos.len();
        let ghost keys = changes.room_infos.keys_seq();
        let ghost chv = changes@;
        let mut j: usize = 0;
        proof {
            changes.room_infos.lemma_keys();
        }
        while j < m
            invariant
                m == changes.room_infos.keys_seq().len(),
                0 <= j <= m,
                changes.wf(),
                keys == changes.room_infos.keys_seq(),
                chv == changes@,
                new_records.deep_view().len() == j,
                forall|x: int|
                    0 <= x < j ==> #[trigger] new_records.deep_view()[x] == chv.room_infos[
                        keys[x]] && chv.room_infos.contains_key(keys[x]),
            decreases m - j,
        {
            let ghost pre = new_records.deep_view();
            proof {
                changes.room_infos.lemma_keys();
                assert(changes.room_infos.keys_seq().contains(keys[j as int]));
            }
            let v = changes.room_infos.value_at(j);
            new_records.push(v.clone());
            proof {
                assert(new_records.deep_view() =~= pre.push(v@));
            }
            j += 1;
        }
        proof {
            changes.room_infos.lemma_keys();
            assert forall|k: Seq<char>| chv.room_infos.contains_key(k) implies exists|x: int|
                0 <= x < keys.len() && keys[x] == k by {
                assert(keys.contains(k));
            }
        }
        let token: Option<String> = match &changes.sync_token {
            Some(t) => Some(t.clone()),
            None => None,
        };
        match self.inner.save_changes(changes) {
            Ok(_) => {},
            Err(e) => {
                return Err(e);
            },
        }
        // The batch is durable: reflect it in the live table and only now
        // advance the cursor.
        let ghost lv = new_records.deep_view();
        let ghost rooms0 = self.rooms_seq();
        let n: usize = new_records.len();
        let mut i: usize = 0;
        proof {
            assert forall|x: int, y: int| 0 <= x < y < lv.len() implies lv[x].room_id
                != lv[y].room_id by {
                assert(lv[x] == chv.room_infos[keys[x]] && lv[x].room_id == keys[x]);
                assert(lv[y] == chv.room_infos[keys[y]] && lv[y].room_id == keys[y]);
            }
        }
        while i < n
            invariant
                n == new_records.len(),
                0 <= i <= n,
                lv == new_records.deep_view(),
                lv.len() == keys.len(),
                forall|x: int|
                    0 <= x < lv.len() ==> #[trigger] lv[x] == chv.room_infos[keys[x]]
                        && chv.room_infos.contains_key(keys[x]) && lv[x].room_id == keys[x],
                forall|x: int, y: int| 0 <= x < y < lv.len() ==> lv[x].room_id != lv[y].room_id,
                forall|k: Seq<char>|
                    chv.room_infos.contains_key(k) ==> exists|x: int|
                        0 <= x < keys.len() && keys[x] == k,
                self.inner.inv(),
                self.rooms.wf(),
                self.session_meta == old(self).session_meta,
                self.sync_token == old(self).sync_token,
                self.sync_latch == old(self).sync_latch,
                self.contents() == apply_changes(old(self).contents(), chv),
                rooms0 == old(self).rooms_seq(),
                user_id@ == old(self).session().unwrap().user_id,
                forall|x: int|
                    0 <= x < i ==> has_room(self.rooms_seq(), #[trigger] lv[x].room_id)
                        && room_of(self.rooms_seq(), lv[x].room_id) == restored_room(
                        user_id@,
                        lv[x],
                    ),
                forall|id: Seq<char>| #![trigger has_room(rooms0, id)]
                    !(exists|x: int| 0 <= x < i && #[trigger] lv[x].room_id == id) ==> (has_room(
                        self.rooms_seq(),
                        id,
                    ) == has_room(rooms0, id) && (has_room(rooms0, id) ==> room_of(
                        self.rooms_seq(),
                        id,
                    ) == room_of(rooms0, id))),
            decreases n - i,
        {
            let ghost pre = self.rooms_seq();
            let rec = new_records[i].clone();
            let room = Room::restore(user_id.clone(), rec);
            proof {
                assert(room@ == restored_room(user_id@, lv[i as int]));
                if has_room(pre, room@.record.room_id) {
                    let w = crate::observable_map::spec_index_of(pre, room@.record.room_id);
                    assert(0 <= w < pre.len() && pre[w].record.room_id == room@.record.room_id);
                    lemma_update_preserves(pre, w, room@);
                } else {
                    lemma_append_preserves(pre, room@);
                }
            }
            self.rooms.insert(room);
            proof {
                let cur = self.rooms_seq();
                let newid = lv[i as int].room_id;
                if has_room(pre, newid) {
                    assert(cur =~= pre.update(
                        crate::observable_map::spec_index_of(pre, newid),
                        restored_room(user_id@, lv[i as int]),
                    ));
                } else {
                    assert(cur =~= pre.push(restored_room(user_id@, lv[i as int])));
                }
                assert forall|x: int|
                    0 <= x < i + 1 implies has_room(cur, #[trigger] lv[x].room_id) && room_of(
                    cur,
                    lv[x].room_id,
                ) == restored_room(user_id@, lv[x]) by {
                    if x < i {
                        assert(lv[x].room_id != newid);
                        assert(has_room(cur, lv[x].room_id) == has_room(pre, lv[x].room_id));
                        assert(room_of(cur, lv[x].room_id) == room_of(pre, lv[x].room_id));
                    }
                }
                assert forall|id: Seq<char>| #![trigger has_room(rooms0, id)]
                    !(exists|x: int| 0 <= x < i + 1 && #[trigger] lv[x].room_id == id) implies (
                has_room(cur, id) == has_room(rooms0, id) && (has_room(rooms0, id) ==> room_of(
                    cur,
                    id,
                ) == room_of(rooms0, id))) by {
                    if id == newid {
                        assert(lv[i as int].room_id == id);
                        assert(false);
                    }
                    assert(!(exists|x: int| 0 <= x < i && #[trigger] lv[x].room_id == id));
                    assert(has_room(cur, id) == has_room(pre, id));
                    if has_room(rooms0, id) {
                        assert(has_room(pre, id));
                        assert(room_of(cur, id) == room_of(pre, id));
                    }
                }
            }
            i += 1;
        }
        if let Some(t) = token {
            self.sync_token = Some(t);
        }
        proof {
            assert forall|k: Seq<char>|
                #[trigger] chv.room_infos.contains_key(k) implies has_room(self.rooms_seq(), k)
                && room_of(self.rooms_seq(), k) == restored_room(
                old(self).session().unwrap().user_id,
                chv.room_infos[k],
            ) by {
                let x = choose|x: int| 0 <= x < keys.len() && keys[x] == k;
                assert(lv[x].room_id == k);
                assert(has_room(self.rooms_seq(), lv[x].room_id));
            }
            assert forall|id: Seq<char>| !chv.room_infos.contains_key(id) implies (has_room(
                self.rooms_seq(),
                id,
            ) == has_room(old(self).rooms_seq(), id) && (has_room(old(self).rooms_seq(), id)
                ==> #[trigger] room_of(self.rooms_seq(), id) == room_of(
                old(self).rooms_seq(),
                id,
            ))) by {
                if exists|x: int| 0 <= x < n && #[trigger] lv[x].room_id == id {
                    let x = choose|x: int| 0 <= x < n && #[trigger] lv[x].room_id == id;
                    assert(chv.room_infos.contains_key(keys[x]));
                }
                assert(has_room(rooms0, id) == has_room(old(self).rooms_seq(), id));
            }
        }
        Ok(())
    }
}

} // verus!
