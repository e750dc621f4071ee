use vstd::prelude::*;
use crate::rooms::{Room, RoomV};

verus! {

/// One structural change of a live room sequence.
pub enum RoomListDiff {
    /// A room was inserted at `index`.
    Insert { index: usize, room: Room },
    /// The room at `index` was replaced.
    Replace { index: usize, room: Room },
    /// The room at `index` was removed.
    Remove { index: usize },
}

/// Mathematical mirror of [`RoomListDiff`].
pub enum RoomListDiffV {
    Insert { index: int, room: RoomV },
    Replace { index: int, room: RoomV },
    Remove { index: int },
}

impl View for RoomListDiff {
    type V = RoomListDiffV;

    open spec fn view(&self) -> RoomListDiffV {
        match self {
            RoomListDiff::Insert { index, room } => RoomListDiffV::Insert {
                index: *index as int,
                room: room@,
            },
            RoomListDiff::Replace { index, room } => RoomListDiffV::Replace {
                index: *index as int,
                room: room@,
            },
            RoomListDiff::Remove { index } => RoomListDiffV::Remove { index: *index as int },
        }
    }
}

impl DeepView for RoomListDiff {
    type V = RoomListDiffV;

    open spec fn deep_view(&self) -> RoomListDiffV {
        self.view()
    }
}

impl Clone for RoomListDiff {
    fn clone(&self) -> (r: Self)
        ensures
            r@ == self@,
    {
        match self {
            RoomListDiff::Insert { index, room } => RoomListDiff::Insert {
                index: *index,
                room: room.clone(),
            },
            RoomListDiff::Replace { index, room } => RoomListDiff::Replace {
                index: *index,
                room: room.clone(),
            },
            RoomListDiff::Remove { index } => RoomListDiff::Remove { index: *index },
        }
    }
}

/// The sequence that results from one diff. A diff whose index does not
/// fit the sequence changes nothing.
pub open spec fn apply_diff(s: Seq<RoomV>, d: RoomListDiffV) -> Seq<RoomV> {
    match d {
        RoomListDiffV::Insert { index, room } => if 0 <= index <= s.len() {
            s.insert(index, room)
        } else {
            s
        },
        RoomListDiffV::Replace { index, room } => if 0 <= index < s.len() {
            s.update(index, room)
        } else {
            s
        },
        RoomListDiffV::Remove { index } => if 0 <= index < s.len() {
            s.remove(index)
        } else {
            s
        },
    }
}

/// The sequence that results from replaying a diff list, in order.
pub open spec fn replay(s: Seq<RoomV>, ds: Seq<RoomListDiffV>) -> Seq<RoomV>
    decreases ds.len(),
{
    if ds.len() == 0 {
        s
    } else {
        replay(apply_diff(s, ds[0]), ds.drop_first())
    }
}

/// Replaying a concatenation replays the parts in turn.
pub proof fn lemma_replay_concat(s: Seq<RoomV>, d1: Seq<RoomListDiffV>, d2: Seq<RoomListDiffV>)
    ensures
        replay(s, d1 + d2) == replay(replay(s, d1), d2),
    decreases d1.len(),
{
    if d1.len() == 0 {
        assert(d1 + d2 =~= d2);
    } else {
        assert((d1 + d2)[0] == d1[0]);
        assert((d1 + d2).drop_first() =~= d1.drop_first() + d2);
        lemma_replay_concat(apply_diff(s, d1[0]), d1.drop_first(), d2);
    }
}

/// Replaying one more diff applies it to the replayed prefix.
pub proof fn lemma_replay_push(s: Seq<RoomV>, ds: Seq<RoomListDiffV>, d: RoomListDiffV)
    ensures
        replay(s, ds.push(d)) == apply_diff(replay(s, ds), d),
{
    assert(ds.push(d) =~= ds + seq![d]);
    lemma_replay_concat(s, ds, seq![d]);
    let x = replay(s, ds);
    let y = apply_diff(x, d);
    assert(seq![d][0] == d);
    assert(seq![d].drop_first() =~= Seq::<RoomListDiffV>::empty());
    assert(replay(y, Seq::<RoomListDiffV>::empty()) == y);
    assert(replay(x, seq![d]) == replay(y, seq![d].drop_first()));
}

/// Replaying a single diff applies it.
pub proof fn lemma_replay_one(s: Seq<RoomV>, d: RoomListDiffV)
    ensures
        replay(s, seq![d]) == apply_diff(s, d),
{
    assert(seq![d][0] == d);
    assert(seq![d].drop_first() =~= Seq::<RoomListDiffV>::empty());
    assert(replay(apply_diff(s, d), Seq::<RoomListDiffV>::empty()) == apply_diff(s, d));
}

/// Whether `s` holds a room with the given id.
pub open spec fn has_room(s: Seq<RoomV>, id: Seq<char>) -> bool {
    exists|i: int| 0 <= i < s.len() && s[i].record.room_id == id
}

/// The position of the room with the given id.
pub open spec fn spec_index_of(s: Seq<RoomV>, id: Seq<char>) -> int {
    choose|i: int| 0 <= i < s.len() && s[i].record.room_id == id
}

/// The room with the given id.
pub open spec fn room_of(s: Seq<RoomV>, id: Seq<char>) -> RoomV {
    s[spec_index_of(s, id)]
}

/// In a duplicate-free sequence, the room at position `i` is the room of
/// its id.
pub proof fn lemma_room_at(s: Seq<RoomV>, i: int)
    requires
        distinct_room_ids(s),
        0 <= i < s.len(),
    ensures
        has_room(s, s[i].record.room_id),
        spec_index_of(s, s[i].record.room_id) == i,
        room_of(s, s[i].record.room_id) == s[i],
{
    let id = s[i].record.room_id;
    assert(has_room(s, id));
    let w = spec_index_of(s, id);
    assert(0 <= w < s.len() && s[w].record.room_id == id);
    if w != i {
        if w < i {
            assert(s[w].record.room_id != s[i].record.room_id);
        } else {
            assert(s[i].record.room_id != s[w].record.room_id);
        }
    }
}

/// Replacing the room of an id in place leaves every other room where it
/// was.
pub proof fn lemma_update_preserves(s: Seq<RoomV>, i: int, room: RoomV)
    requires
        distinct_room_ids(s),
        0 <= i < s.len(),
        s[i].record.room_id == room.record.room_id,
    ensures
        distinct_room_ids(s.update(i, room)),
        has_room(s.update(i, room), room.record.room_id),
        room_of(s.update(i, room), room.record.room_id) == room,
        forall|id: Seq<char>|
            id != room.record.room_id ==> #[trigger] has_room(s.update(i, room), id) == has_room(
                s,
                id,
            ),
        forall|id: Seq<char>|
            id != room.record.room_id && has_room(s, id) ==> #[trigger] room_of(
                s.update(i, room),
                id,
            ) == room_of(s, id),
{
    let t = s.update(i, room);
    assert forall|p: int, q: int|
        0 <= p < q < t.len() implies t[p].record.room_id != t[q].record.room_id by {
        if p != i && q != i {
            assert(t[p] == s[p] && t[q] == s[q]);
        } else if p == i {
            assert(t[q] == s[q]);
            assert(s[i].record.room_id != s[q].record.room_id);
        } else {
            assert(t[p] == s[p]);
            assert(s[p].record.room_id != s[i].record.room_id);
        }
    }
    assert(t[i] == room);
    lemma_room_at(t, i);
    assert forall|id: Seq<char>|
        id != room.record.room_id implies #[trigger] has_room(t, id) == has_room(s, id) by {
        if has_room(s, id) {
            let w = spec_index_of(s, id);
            assert(0 <= w < s.len() && s[w].record.room_id == id);
            assert(w != i);
            assert(t[w] == s[w]);
        }
        if has_room(t, id) {
            let w = spec_index_of(t, id);
            assert(0 <= w < t.len() && t[w].record.room_id == id);
            assert(w != i);
            assert(t[w] == s[w]);
        }
    }
    assert forall|id: Seq<char>|
        id != room.record.room_id && has_room(s, id) implies #[trigger] room_of(t, id) == room_of(
        s,
        id,
    ) by {
        let w = spec_index_of(s, id);
        assert(0 <= w < s.len() && s[w].record.room_id == id);
        assert(w != i);
        assert(t[w] == s[w]);
        lemma_room_at(t, w);
        lemma_room_at(s, w);
    }
}

/// Appending a room with a fresh id leaves every other room where it was.
pub proof fn lemma_append_preserves(s: Seq<RoomV>, room: RoomV)
    requires
        distinct_room_ids(s),
        !has_room(s, room.record.room_id),
    ensures
        distinct_room_ids(s.push(room)),
        has_room(s.push(room), room.record.room_id),
        room_of(s.push(room), room.record.room_id) == room,
        forall|id: Seq<char>|
            id != room.record.room_id ==> #[trigger] has_room(s.push(room), id) == has_room(
                s,
                id,
            ),
        forall|id: Seq<char>|
            id != room.record.room_id && has_room(s, id) ==> #[trigger] room_of(s.push(room), id)
                == room_of(s, id),
{
    let t = s.push(room);
    let i = s.len() as int;
    assert forall|p: int, q: int|
        0 <= p < q < t.len() implies t[p].record.room_id != t[q].record.room_id by {
        if q != i {
            assert(t[p] == s[p] && t[q] == s[q]);
        } else {
            assert(t[p] == s[p]);
        }
    }
    assert(t[i] == room);
    lemma_room_at(t, i);
    assert forall|id: Seq<char>|
        id != room.record.room_id implies #[trigger] has_room(t, id) == has_room(s, id) by {
        if has_room(s, id) {
            let w = spec_index_of(s, id);
            assert(0 <= w < s.len() && s[w].record.room_id == id);
            assert(t[w] == s[w]);
        }
        if has_room(t, id) {
            let w = spec_index_of(t, id);
            assert(0 <= w < t.len() && t[w].record.room_id == id);
            assert(w != i);
            assert(t[w] == s[w]);
        }
    }
    assert forall|id: Seq<char>|
        id != room.record.room_id && has_room(s, id) implies #[trigger] room_of(t, id) == room_of(
        s,
        id,
    ) by {
        let w = spec_index_of(s, id);
        assert(0 <= w < s.len() && s[w].record.room_id == id);
        assert(t[w] == s[w]);
        lemma_room_at(t, w);
        lemma_room_at(s, w);
    }
}

/// No two rooms of `s` share an id.
pub open spec fn distinct_room_ids(s: Seq<RoomV>) -> bool {
    forall|i: int, j: int|
        0 <= i < j < s.len() ==> s[i].record.room_id != s[j].record.room_id
}

/// The in-memory room table: the authoritative room sequence together
/// with the append-only log of every structural change, so that
/// subscribers replaying the log from their cursor see exactly the
/// mutations that were applied, in order.
pub struct ObservableMap {
    rooms: Vec<Room>,
    log: Vec<RoomListDiff>,
}

impl ObservableMap {
    /// The current room sequence.
    pub closed spec fn rooms_view(&self) -> Seq<RoomV> {
        self.rooms.deep_view()
    }

    /// The full diff log since creation.
    pub closed spec fn log_view(&self) -> Seq<RoomListDiffV> {
        self.log.deep_view()
    }

    /// Well-formed: ids are unique, and the room sequence is exactly the
    /// replay of the log from the empty sequence — no change is ever
    /// applied without its diff, nor a diff logged without its change.
    pub open spec fn wf(&self) -> bool {
        &&& distinct_room_ids(self.rooms_view())
        &&& self.rooms_view() == replay(Seq::<RoomV>::empty(), self.log_view())
    }

    /// Creates an empty table.
    pub fn new() -> (r: Self)
        ensures
            r.wf(),
            r.rooms_view() =~= Seq::<RoomV>::empty(),
            r.log_view() =~= Seq::<RoomListDiffV>::empty(),
    {
        let r = ObservableMap { rooms: Vec::new(), log: Vec::new() };
        proof {
            assert(r.rooms_view() =~= Seq::<RoomV>::empty());
            assert(r.log_view() =~= Seq::<RoomListDiffV>::empty());
        }
        r
    }

    /// The number of rooms.
    pub fn len(&self) -> (n: usize)
        ensures
            n == self.rooms_view().len(),
    {
        self.rooms.len()
    }

    /// The room at position `i`.
    pub fn get_at(&self, i: usize) -> (r: &Room)
        requires
            i < self.rooms_view().len(),
        ensures
            r@ == self.rooms_view()[i as int],
    {
        &self.rooms[i]
    }

    /// Looks a room up by id.
    pub fn get(&self, room_id: &String) -> (r: Option<&Room>)
        requires
            self.wf(),
        ensures
            match r {
                Some(room) => has_room(self.rooms_view(), room_id@) && room@ == room_of(
                    self.rooms_view(),
                    room_id@,
                ) && room@.record.room_id == room_id@,
                None => !has_room(self.rooms_view(), room_id@),
            },
    {
        let n: usize = self.rooms.len();
        let mut i: usize = 0;
        while i < n
            invariant
                n == self.rooms.len(),
                0 <= i <= n,
                self.wf(),
                forall|j: int| 0 <= j < i ==> self.rooms_view()[j].record.room_id != room_id@,
            decreases n - i,
        {
            if self.rooms[i].room_id().eq(room_id) {
                proof {
                    let s = self.rooms_view();
                    assert(s[i as int].record.room_id == room_id@);
                    let w = spec_index_of(s, room_id@);
                    assert(0 <= w < s.len() && s[w].record.room_id == room_id@);
                    assert(w == i as int);
                }
                return Some(&self.rooms[i]);
            }
            i += 1;
        }
        None
    }

    /// Inserts `room`, replacing any room with the same id in place and
    /// appending otherwise; the matching diff is logged atomically with
    /// the change.
    pub fn insert(&mut self, room: Room)
        requires
            old(self).wf(),
        ensures
            final(self).wf(),
            has_room(old(self).rooms_view(), room@.record.room_id) ==> {
                &&& final(self).rooms_view() =~= old(self).rooms_view().update(
                    spec_index_of(old(self).rooms_view(), room@.record.room_id),
                    room@,
                )
                &&& final(self).log_view() =~= old(self).log_view().push(
                    RoomListDiffV::Replace {
                        index: spec_index_of(old(self).rooms_view(), room@.record.room_id),
                        room: room@,
                    },
                )
            },
            !has_room(old(self).rooms_view(), room@.record.room_id) ==> {
                &&& final(self).rooms_view() =~= old(self).rooms_view().push(room@)
                &&& final(self).log_view() =~= old(self).log_view().push(
                    RoomListDiffV::Insert {
                        index: old(self).rooms_view().len() as int,
                        room: room@,
                    },
                )
            },
    {
        let ghost s0 = self.rooms_view();
        let ghost l0 = self.log_view();
        let n: usize = self.rooms.len();
        let mut i: usize = 0;
        while i < n
            invariant
                n == self.rooms.len(),
                0 <= i <= n,
                self.wf(),
                *self == *old(self),
                s0 == old(self).rooms_view(),
                l0 == old(self).log_view(),
                forall|j: int|
                    0 <= j < i ==> self.rooms_view()[j].record.room_id != room@.record.room_id,
            decreases n - i,
        {
            if self.rooms[i].room_id().eq(room.room_id()) {
                proof {
                    let s = self.rooms_view();
                    assert(s[i as int].record.room_id == room@.record.room_id);
                    let w = spec_index_of(s, room@.record.room_id);
                    assert(0 <= w < s.len() && s[w].record.room_id == room@.record.room_id);
                    assert(w == i as int);
                }
                let d = RoomListDiff::Replace { index: i, room: room.clone() };
                self.rooms.remove(i);
                self.rooms.insert(i, room);
                self.log.push(d);
                proof {
                    assert(self.rooms_view() =~= s0.update(i as int, room@));
                    assert(self.log_view() =~= l0.push(
                        RoomListDiffV::Replace { index: i as int, room: room@ },
                    ));
                    lemma_replay_push(
                        Seq::<RoomV>::empty(),
                        l0,
                        RoomListDiffV::Replace { index: i as int, room: room@ },
                    );
                    assert forall|p: int, q: int|
                        0 <= p < q < self.rooms_view().len() implies self.rooms_view()[p]
                        .record.room_id != self.rooms_view()[q].record.room_id by {
                        assert(s0[p].record.room_id != s0[q].record.room_id);
                    }
                }
                return ;
            }
            i += 1;
        }
        proof {
            assert(!has_room(s0, room@.record.room_id));
        }
        let d = RoomListDiff::Insert { index: n, room: room.clone() };
        self.rooms.push(room);
        self.log.push(d);
        proof {
            assert(self.rooms_view() =~= s0.push(self.rooms@[n as int]@));
            assert(self.rooms_view() =~= s0.insert(n as int, self.rooms_view()[n as int]));
            assert(self.log_view() =~= l0.push(
                RoomListDiffV::Insert { index: n as int, room: self.rooms_view()[n as int] },
            ));
            lemma_replay_push(
                Seq::<RoomV>::empty(),
                l0,
                RoomListDiffV::Insert { index: n as int, room: self.rooms_view()[n as int] },
            );
            assert forall|p: int, q: int|
                0 <= p < q < self.rooms_view().len() implies self.rooms_view()[p].record.room_id
                != self.rooms_view()[q].record.room_id by {
                if q < n {
                    assert(s0[p].record.room_id != s0[q].record.room_id);
                } else {
                    assert(self.rooms_view()[p] == s0[p]);
                }
            }
        }
    }

    /// Removes the room with the given id, if present; the matching diff
    /// is logged atomically with the change. Removing an absent id leaves
    /// the table, and the log, untouched.
    pub fn remove(&mut self, room_id: &String) -> (r: Option<Room>)
        requires
            old(self).wf(),
        ensures
            final(self).wf(),
            match r {
                Some(room) => {
                    &&& has_room(old(self).rooms_view(), room_id@)
                    &&& room@ == room_of(old(self).rooms_view(), room_id@)
                    &&& final(self).rooms_view() =~= old(self).rooms_view().remove(
                        spec_index_of(old(self).rooms_view(), room_id@),
                    )
                    &&& final(self).log_view() =~= old(self).log_view().push(
                        RoomListDiffV::Remove {
                            index: spec_index_of(old(self).rooms_view(), room_id@),
                        },
                    )
                },
                None => {
                    &&& !has_room(old(self).rooms_view(), room_id@)
                    &&& *final(self) == *old(self)
                },
            },
    {
        let ghost s0 = self.rooms_view();
        let ghost l0 = self.log_view();
        let n: usize = self.rooms.len();
        let mut i: usize = 0;
        while i < n
            invariant
                n == self.rooms.len(),
                0 <= i <= n,
                self.wf(),
                *self == *old(self),
                s0 == old(self).rooms_view(),
                l0 == old(self).log_view(),
                forall|j: int| 0 <= j < i ==> self.rooms_view()[j].record.room_id != room_id@,
            decreases n - i,
        {
            if self.rooms[i].room_id().eq(room_id) {
                proof {
                    let s = self.rooms_view();
                    assert(s[i as int].record.room_id == room_id@);
                    let w = spec_index_of(s, room_id@);
                    assert(0 <= w < s.len() && s[w].record.room_id == room_id@);
                    assert(w == i as int);
                }
                let room = self.rooms.remove(i);
                self.log.push(RoomListDiff::Remove { index: i });
                proof {
                    assert(self.rooms_view() =~= s0.remove(i as int));
                    assert(self.log_view() =~= l0.push(
                        RoomListDiffV::Remove { index: i as int },
                    ));
                    lemma_replay_push(
                        Seq::<RoomV>::empty(),
                        l0,
                        RoomListDiffV::Remove { index: i as int },
                    );
                    assert forall|p: int, q: int|
                        0 <= p < q < self.rooms_view().len() implies self.rooms_view()[p]
                        .record.room_id != self.rooms_view()[q].record.room_id by {
                        let sp: int = if p < i { p } else { p + 1 };
                        let sq: int = if q < i { q } else { q + 1 };
                        assert(self.rooms_view()[p] == s0[sp]);
                        assert(self.rooms_view()[q] == s0[sq]);
                    }
                }
                return Some(room);
            }
            i += 1;
        }
        None
    }

    /// A snapshot of the current rooms.
    pub fn snapshot(&self) -> (r: Vec<Room>)
        ensures
            r.deep_view() == self.rooms_view(),
    {
        let mut r: Vec<Room> = Vec::new();
        let n: usize = self.rooms.len();
        let mut i: usize = 0;
        proof {
            assert(r.deep_view() =~= self.rooms_view().take(0));
        }
        while i < n
            invariant
                n == self.rooms.len(),
                0 <= i <= n,
                r.deep_view() == self.rooms_view().take(i as int),
            decreases n - i,
        {
            let ghost pre = r.deep_view();
            r.push(self.rooms[i].clone());
            proof {
                assert(r.deep_view() =~= pre.push(self.rooms_view()[i as int]));
                assert(self.rooms_view().take(i + 1) =~= self.rooms_view().take(i as int).push(
                    self.rooms_view()[i as int],
                ));
            }
            i += 1;
        }
        proof {
            assert(self.rooms_view().take(n as int) =~= self.rooms_view());
        }
        r
    }

    /// Subscribes: the current sequence as the baseline, and the cursor
    /// from which future diffs are to be read. A late subscriber thus
    /// receives the full current sequence before any diff.
    pub fn stream(&self) -> (r: (Vec<Room>, usize))
        requires
            self.wf(),
        ensures
            r.0.deep_view() == self.rooms_view(),
            r.1 == self.log_view().len(),
            r.0.deep_view() == replay(
                Seq::<RoomV>::empty(),
                self.log_view().take(r.1 as int),
            ),
    {
        proof {
            assert(self.log_view().take(self.log_view().len() as int) =~= self.log_view());
        }
        (self.snapshot(), self.log.len())
    }

    /// The diffs logged since `cursor`, and the new cursor.
    pub fn diffs_since(&self, cursor: usize) -> (r: (Vec<RoomListDiff>, usize))
        requires
            cursor <= self.log_view().len(),
        ensures
            r.0.deep_view() == self.log_view().skip(cursor as int),
            r.1 == self.log_view().len(),
    {
        let mut out: Vec<RoomListDiff> = Vec::new();
        let n: usize = self.log.len();
        let mut i: usize = cursor;
        proof {
            assert(out.deep_view() =~= self.log_view().subrange(cursor as int, cursor as int));
        }
        while i < n
            invariant
                n == self.log.len(),
                cursor <= i <= n,
                out.deep_view() == self.log_view().subrange(cursor as int, i as int),
            decreases n - i,
        {
            let ghost pre = out.deep_view();
            out.push(self.log[i].clone());
            proof {
                assert(out.deep_view() =~= pre.push(self.log_view()[i as int]));
                assert(self.log_view().subrange(cursor as int, i + 1) =~= self.log_view()
                    .subrange(cursor as int, i as int).push(self.log_view()[i as int]));
            }
            i += 1;
        }
        proof {
            assert(self.log_view().subrange(cursor as int, n as int) =~= self.log_view().skip(
                cursor as int,
            ));
        }
        (out, n)
    }

    /// Diff-stream replay: a subscriber that took the sequence at some
    /// cursor as its baseline and replays the diffs logged since then
    /// reconstructs the current sequence exactly.
    pub proof fn lemma_replay_from_cursor(&self, cursor: int)
        requires
            self.wf(),
            0 <= cursor <= self.log_view().len(),
        ensures
            replay(
                replay(Seq::<RoomV>::empty(), self.log_view().take(cursor)),
                self.log_view().skip(cursor),
            ) == self.rooms_view(),
    {
        assert(self.log_view().take(cursor) + self.log_view().skip(cursor) =~= self.log_view());
        lemma_replay_concat(
            Seq::<RoomV>::empty(),
            self.log_view().take(cursor),
            self.log_view().skip(cursor),
        );
    }
}

} // verus!
