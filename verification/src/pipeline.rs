use vstd::prelude::*;
use core::cmp::Ordering;
use crate::filters::{matches_all, spec_matches_all, Filter};
use crate::observable_map::{
    apply_diff, distinct_room_ids, has_room, lemma_replay_one, lemma_replay_push, replay,
    RoomListDiff, RoomListDiffV,
};
use crate::rooms::{Room, RoomV};
use crate::sorters::{
    lemma_lex_cmp_stage, lemma_lex_flip, lemma_lex_trans, spec_lex_stage_cmp, LexicographicSorter,
    Sorter,
};

verus! {

/// Whether `s` is sorted by the comparator stack `ss`: no earlier room
/// compares `Greater` against a later one.
pub open spec fn sorted_rooms(ss: Seq<Sorter>, s: Seq<RoomV>) -> bool {
    forall|i: int, j: int|
        0 <= i < j < s.len() ==> spec_lex_stage_cmp(ss, s[i], s[j]) != Ordering::Greater
}

/// Removing an element keeps a room sequence sorted.
proof fn lemma_sorted_remove(ss: Seq<Sorter>, s: Seq<RoomV>, i: int)
    requires
        sorted_rooms(ss, s),
        0 <= i < s.len(),
    ensures
        sorted_rooms(ss, s.remove(i)),
{
    let t = s.remove(i);
    assert forall|p: int, q: int|
        0 <= p < q < t.len() implies spec_lex_stage_cmp(ss, t[p], t[q]) != Ordering::Greater by {
        let sp: int = if p < i { p } else { p + 1 };
        let sq: int = if q < i { q } else { q + 1 };
        assert(t[p] == s[sp] && t[q] == s[sq]);
    }
}

/// Removing an element keeps room ids distinct.
proof fn lemma_distinct_remove(s: Seq<RoomV>, i: int)
    requires
        distinct_room_ids(s),
        0 <= i < s.len(),
    ensures
        distinct_room_ids(s.remove(i)),
{
    let t = s.remove(i);
    assert forall|p: int, q: int|
        0 <= p < q < t.len() implies t[p].record.room_id != t[q].record.room_id by {
        let sp: int = if p < i { p } else { p + 1 };
        let sq: int = if q < i { q } else { q + 1 };
        assert(t[p] == s[sp] && t[q] == s[sq]);
    }
}

/// Removes the room with the given id, reporting its position.
fn remove_room_by_id(items: &mut Vec<Room>, id: &String) -> (r: Option<(usize, Room)>)
    ensures
        match r {
            Some(ir) => {
                &&& ir.0 < old(items).deep_view().len()
                &&& old(items).deep_view()[ir.0 as int].record.room_id == id@
                &&& ir.1@ == old(items).deep_view()[ir.0 as int]
                &&& final(items).deep_view() =~= old(items).deep_view().remove(ir.0 as int)
                &&& forall|j: int|
                    0 <= j < ir.0 ==> old(items).deep_view()[j].record.room_id != id@
            },
            None => {
                &&& !has_room(old(items).deep_view(), id@)
                &&& final(items).deep_view() =~= old(items).deep_view()
            },
        },
{
    let n: usize = items.len();
    let mut i: usize = 0;
    while i < n
        invariant
            n == items.len(),
            0 <= i <= n,
            *items == *old(items),
            forall|j: int| 0 <= j < i ==> items.deep_view()[j].record.room_id != id@,
        decreases n - i,
    {
        if items[i].room_id().eq(id) {
            proof {
                assert(items.deep_view()[i as int].record.room_id == id@);
            }
            let ghost s0 = items.deep_view();
            let room = items.remove(i);
            proof {
                assert(items.deep_view() =~= s0.remove(i as int));
            }
            return Some((i, room));
        }
        i += 1;
    }
    None
}

/// Inserts `room` at its sorted position: right after every room that is
/// not strictly after it, so that a room equal under every criterion
/// keeps arrival order — the stable-insert discipline.
fn insert_room_sorted(sorter: &LexicographicSorter, items: &mut Vec<Room>, room: Room) -> (pos:
    usize)
    requires
        sorted_rooms(sorter.sorters@, old(items).deep_view()),
        distinct_room_ids(old(items).deep_view()),
        !has_room(old(items).deep_view(), room@.record.room_id),
    ensures
        pos <= old(items).deep_view().len(),
        final(items).deep_view() =~= old(items).deep_view().insert(pos as int, room@),
        sorted_rooms(sorter.sorters@, final(items).deep_view()),
        distinct_room_ids(final(items).deep_view()),
        forall|j: int|
            0 <= j < pos ==> spec_lex_stage_cmp(
                sorter.sorters@,
                room@,
                old(items).deep_view()[j],
            ) != Ordering::Less,
        pos < old(items).deep_view().len() ==> spec_lex_stage_cmp(
            sorter.sorters@,
            room@,
            old(items).deep_view()[pos as int],
        ) == Ordering::Less,
{
    let ghost ss = sorter.sorters@;
    let ghost s0 = items.deep_view();
    let n: usize = items.len();
    let mut i: usize = 0;
    while i < n
        invariant
            n == items.len(),
            0 <= i <= n,
            *items == *old(items),
            s0 == old(items).deep_view(),
            ss == sorter.sorters@,
            sorted_rooms(ss, s0),
            distinct_room_ids(s0),
            !has_room(s0, room@.record.room_id),
            forall|j: int|
                0 <= j < i ==> spec_lex_stage_cmp(ss, room@, s0[j]) != Ordering::Less,
        decreases n - i,
    {
        let o = sorter.cmp(&room, &items[i]);
        proof {
            assert(items.deep_view()[i as int] == s0[i as int]);
            assert(room@.record.room_id != s0[i as int].record.room_id);
            lemma_lex_cmp_stage(ss, room@, s0[i as int]);
        }
        if matches!(o, Ordering::Less) {
            items.insert(i, room);
            proof {
                assert(items.deep_view() =~= s0.insert(i as int, room@));
                lemma_insert_keeps_sorted(ss, s0, room@, i as int);
                lemma_insert_keeps_distinct(s0, room@, i as int);
            }
            return i;
        }
        i += 1;
    }
    items.push(room);
    proof {
        assert(items.deep_view() =~= s0.push(room@));
        assert(s0.push(room@) =~= s0.insert(n as int, room@));
        lemma_insert_keeps_sorted(ss, s0, room@, n as int);
        lemma_insert_keeps_distinct(s0, room@, n as int);
    }
    n
}

/// Inserting at the first strictly-later position keeps the sequence
/// sorted.
proof fn lemma_insert_keeps_sorted(ss: Seq<Sorter>, s: Seq<RoomV>, room: RoomV, pos: int)
    requires
        sorted_rooms(ss, s),
        0 <= pos <= s.len(),
        forall|j: int| 0 <= j < pos ==> spec_lex_stage_cmp(ss, room, s[j]) != Ordering::Less,
        pos < s.len() ==> spec_lex_stage_cmp(ss, room, s[pos]) == Ordering::Less,
    ensures
        sorted_rooms(ss, s.insert(pos, room)),
{
    let t = s.insert(pos, room);
    assert forall|p: int, q: int|
        0 <= p < q < t.len() implies spec_lex_stage_cmp(ss, t[p], t[q]) != Ordering::Greater by {
        if p == pos {
            // t[p] is the new room, q > pos
            let sq: int = q - 1;
            assert(t[q] == s[sq]);
            if sq == pos {
            } else {
                // room < s[pos] <= s[sq]
                lemma_lex_trans(ss, room, s[pos], s[sq]);
                assert(spec_lex_stage_cmp(ss, s[pos], s[sq]) != Ordering::Greater);
                lemma_lex_flip(ss, room, s[pos]);
                lemma_lex_flip(ss, room, s[sq]);
                lemma_lex_flip(ss, s[pos], s[sq]);
                if spec_lex_stage_cmp(ss, room, s[sq]) == Ordering::Greater {
                    // then s[sq] < room, and room < s[pos], so s[sq] < s[pos]:
                    // contradicts sortedness
                    lemma_lex_trans(ss, s[sq], room, s[pos]);
                }
            }
        } else if q == pos {
            // t[q] is the new room, p < pos
            assert(t[p] == s[p]);
            lemma_lex_flip(ss, room, s[p]);
        } else {
            let sp: int = if p < pos { p } else { p - 1 };
            let sq: int = if q < pos { q } else { q - 1 };
            assert(t[p] == s[sp] && t[q] == s[sq]);
        }
    }
}

/// Inserting a room with a fresh id keeps ids distinct.
proof fn lemma_insert_keeps_distinct(s: Seq<RoomV>, room: RoomV, pos: int)
    requires
        distinct_room_ids(s),
        !has_room(s, room.record.room_id),
        0 <= pos <= s.len(),
    ensures
        distinct_room_ids(s.insert(pos, room)),
{
    let t = s.insert(pos, room);
    assert forall|p: int, q: int|
        0 <= p < q < t.len() implies t[p].record.room_id != t[q].record.room_id by {
        if p == pos {
            let sq: int = q - 1;
            assert(t[q] == s[sq]);
        } else if q == pos {
            assert(t[p] == s[p]);
        } else {
            let sp: int = if p < pos { p } else { p - 1 };
            let sq: int = if q < pos { q } else { q - 1 };
            assert(t[p] == s[sp] && t[q] == s[sq]);
        }
    }
}

/// Whether a table diff can be applied against the source sequence `s`
/// without breaking id uniqueness.
pub open spec fn diff_applicable(s: Seq<RoomV>, d: RoomListDiffV) -> bool {
    match d {
        RoomListDiffV::Insert { index, room } => 0 <= index <= s.len() && !has_room(
            s,
            room.record.room_id,
        ),
        RoomListDiffV::Replace { index, room } => 0 <= index < s.len() && (room.record.room_id
            == s[index].record.room_id || !has_room(s, room.record.room_id)),
        RoomListDiffV::Remove { index } => 0 <= index < s.len(),
    }
}

/// The filtered, sorted projection of a live room sequence: it follows
/// the source table's diff stream and republishes its own.
pub struct RoomListPipeline {
    filters: Vec<Filter>,
    sorter: LexicographicSorter,
    shadow: Vec<Room>,
    items: Vec<Room>,
}

impl RoomListPipeline {
    /// The filters, evaluated in conjunction.
    pub closed spec fn filters_view(&self) -> Seq<Filter> {
        self.filters@
    }

    /// The comparator stack.
    pub closed spec fn sorters_view(&self) -> Seq<Sorter> {
        self.sorter.sorters@
    }

    /// The pipeline's copy of the source sequence.
    pub closed spec fn shadow_view(&self) -> Seq<RoomV> {
        self.shadow.deep_view()
    }

    /// The projection: the source rooms that pass every filter, sorted.
    pub closed spec fn items_view(&self) -> Seq<RoomV> {
        self.items.deep_view()
    }

    /// Well-formed: the projection is sorted, duplicate-free, and holds
    /// exactly the source rooms that pass every filter.
    pub open spec fn wf(&self) -> bool {
        &&& distinct_room_ids(self.shadow_view())
        &&& distinct_room_ids(self.items_view())
        &&& sorted_rooms(self.sorters_view(), self.items_view())
        &&& forall|i: int|
            0 <= i < self.items_view().len() ==> self.shadow_view().contains(
                #[trigger] self.items_view()[i],
            ) && spec_matches_all(self.filters_view(), self.items_view()[i])
        &&& forall|i: int|
            0 <= i < self.shadow_view().len() ==> spec_matches_all(
                self.filters_view(),
                #[trigger] self.shadow_view()[i],
            ) ==> self.items_view().contains(self.shadow_view()[i])
    }

    /// The current projection.
    pub fn current(&self) -> (r: Vec<Room>)
        ensures
            r.deep_view() == self.items_view(),
    {
        let mut r: Vec<Room> = Vec::new();
        let n: usize = self.items.len();
        let mut i: usize = 0;
        proof {
            assert(r.deep_view() =~= self.items_view().take(0));
        }
        while i < n
            invariant
                n == self.items.len(),
                0 <= i <= n,
                r.deep_view() == self.items_view().take(i as int),
            decreases n - i,
        {
            let ghost pre = r.deep_view();
            r.push(self.items[i].clone());
            proof {
                assert(r.deep_view() =~= pre.push(self.items_view()[i as int]));
                assert(self.items_view().take(i + 1) =~= self.items_view().take(i as int).push(
                    self.items_view()[i as int],
                ));
            }
            i += 1;
        }
        proof {
            assert(self.items_view().take(n as int) =~= self.items_view());
        }
        r
    }

    /// Builds the projection of `initial` under the given filters and
    /// comparator stack.
    pub fn new(filters: Vec<Filter>, sorter: LexicographicSorter, initial: Vec<Room>) -> (r: Self)
        requires
            distinct_room_ids(initial.deep_view()),
        ensures
            r.wf(),
            r.filters_view() == filters@,
            r.sorters_view() == sorter.sorters@,
            r.shadow_view() == initial.deep_view(),
    {
        let mut p = RoomListPipeline { filters, sorter, shadow: initial, items: Vec::new() };
        let ghost f0 = p.filters_view();
        let ghost ss0 = p.sorters_view();
        let ghost sh0 = p.shadow_view();
        let n: usize = p.shadow.len();
        let mut i: usize = 0;
        proof {
            assert(p.items_view() =~= Seq::<RoomV>::empty());
        }
        while i < n
            invariant
                n == p.shadow.len(),
                0 <= i <= n,
                p.filters_view() == f0,
                p.sorters_view() == ss0,
                p.shadow_view() == sh0,
                distinct_room_ids(p.shadow_view()),
                distinct_room_ids(p.items_view()),
                sorted_rooms(p.sorters_view(), p.items_view()),
                forall|k: int|
                    0 <= k < p.items_view().len() ==> p.shadow_view().take(i as int).contains(
                        #[trigger] p.items_view()[k],
                    ) && spec_matches_all(p.filters_view(), p.items_view()[k]),
                forall|k: int|
                    0 <= k < i ==> spec_matches_all(
                        p.filters_view(),
                        #[trigger] p.shadow_view()[k],
                    ) ==> p.items_view().contains(p.shadow_view()[k]),
            decreases n - i,
        {
            let ghost items0 = p.items_view();
            let room = p.shadow[i].clone();
            if matches_all(&p.filters, &room) {
                proof {
                    assert(room@ == p.shadow_view()[i as int]);
                    if has_room(items0, room@.record.room_id) {
                        let k = choose|k: int|
                            0 <= k < items0.len() && items0[k].record.room_id
                                == room@.record.room_id;
                        assert(p.shadow_view().take(i as int).contains(items0[k]));
                        let w = choose|w: int|
                            0 <= w < i && p.shadow_view().take(i as int)[w] == items0[k];
                        assert(p.shadow_view()[w] == items0[k]);
                        assert(false);
                    }
                }
                let pos = insert_room_sorted(&p.sorter, &mut p.items, room);
                proof {
                    assert forall|k: int|
                        0 <= k < p.items_view().len() implies p.shadow_view().take(
                        i + 1,
                    ).contains(#[trigger] p.items_view()[k]) && spec_matches_all(
                        p.filters_view(),
                        p.items_view()[k],
                    ) by {
                        let x = p.items_view()[k];
                        if k == pos {
                            assert(x == p.shadow_view()[i as int]);
                            assert(p.shadow_view().take(i + 1)[i as int] == x);
                        } else {
                            let k0: int = if k < pos {
                                k
                            } else {
                                k - 1
                            };
                            assert(x == items0[k0]);
                            assert(p.shadow_view().take(i as int).contains(x));
                            let w = choose|w: int|
                                0 <= w < i && p.shadow_view().take(i as int)[w] == x;
                            assert(p.shadow_view().take(i + 1)[w] == x);
                        }
                    }
                    assert forall|k: int|
                        0 <= k < i + 1 && spec_matches_all(
                            p.filters_view(),
                            #[trigger] p.shadow_view()[k],
                        ) implies p.items_view().contains(p.shadow_view()[k]) by {
                        if k == i {
                            assert(p.items_view()[pos as int] == p.shadow_view()[i as int]);
                        } else {
                            assert(items0.contains(p.shadow_view()[k]));
                            let w = choose|w: int|
                                0 <= w < items0.len() && items0[w] == p.shadow_view()[k];
                            let w1: int = if w < pos {
                                w
                            } else {
                                w + 1
                            };
                            assert(p.items_view()[w1] == items0[w]);
                        }
                    }
                }
            } else {
                proof {
                    assert forall|k: int|
                        0 <= k < p.items_view().len() implies p.shadow_view().take(
                        i + 1,
                    ).contains(#[trigger] p.items_view()[k]) && spec_matches_all(
                        p.filters_view(),
                        p.items_view()[k],
                    ) by {
                        let x = p.items_view()[k];
                        assert(p.shadow_view().take(i as int).contains(x));
                        let w = choose|w: int|
                            0 <= w < i && p.shadow_view().take(i as int)[w] == x;
                        assert(p.shadow_view().take(i + 1)[w] == x);
                    }
                }
            }
            i += 1;
        }
        proof {
            assert(p.shadow_view().take(n as int) =~= p.shadow_view());
            assert forall|k: int|
                0 <= k < p.items_view().len() implies p.shadow_view().contains(
                #[trigger] p.items_view()[k],
            ) && spec_matches_all(p.filters_view(), p.items_view()[k]) by {
                assert(p.shadow_view().take(n as int).contains(p.items_view()[k]));
            }
        }
        p
    }

    /// Removes the source room at `index` and drops it from the
    /// projection if it was there; afterwards no room with its id is left
    /// in the projection.
    fn apply_remove(&mut self, index: usize) -> (out: Option<RoomListDiff>)
        requires
            old(self).wf(),
            index < old(self).shadow_view().len(),
        ensures
            final(self).wf(),
            final(self).filters_view() == old(self).filters_view(),
            final(self).sorters_view() == old(self).sorters_view(),
            final(self).shadow_view() =~= old(self).shadow_view().remove(index as int),
            !has_room(
                final(self).items_view(),
                old(self).shadow_view()[index as int].record.room_id,
            ),
            match out {
                Some(d) => final(self).items_view() == apply_diff(old(self).items_view(), d@),
                None => final(self).items_view() == old(self).items_view(),
            },
    {
        let ghost sh0 = self.shadow_view();
        let ghost it0 = self.items_view();
        let ghost f = self.filters_view();
        let ghost ss = self.sorters_view();
        let prev = self.shadow.remove(index);
        proof {
            assert(self.shadow_view() =~= sh0.remove(index as int));
            assert(prev@ == sh0[index as int]);
            lemma_distinct_remove(sh0, index as int);
        }
        let ghost sh1 = self.shadow_view();
        let r = remove_room_by_id(&mut self.items, prev.room_id());
        match r {
            Some((ipos, _removed)) => {
                proof {
                    let it1 = self.items_view();
                    assert(it1 =~= it0.remove(ipos as int));
                    lemma_sorted_remove(ss, it0, ipos as int);
                    lemma_distinct_remove(it0, ipos as int);
                    assert(it0[ipos as int].record.room_id == prev@.record.room_id);
                    assert forall|k: int|
                        0 <= k < it1.len() implies sh1.contains(#[trigger] it1[k])
                        && spec_matches_all(f, it1[k]) by {
                        let k0: int = if k < ipos {
                            k
                        } else {
                            k + 1
                        };
                        let x = it0[k0];
                        assert(it1[k] == x);
                        assert(sh0.contains(x));
                        let w = choose|w: int| 0 <= w < sh0.len() && sh0[w] == x;
                        assert(x.record.room_id != it0[ipos as int].record.room_id);
                        assert(sh0[w].record.room_id != sh0[index as int].record.room_id);
                        assert(w != index);
                        let w1: int = if w < index {
                            w
                        } else {
                            w - 1
                        };
                        assert(sh1[w1] == sh0[w]);
                    }
                    assert forall|i: int|
                        0 <= i < sh1.len() && spec_matches_all(
                            f,
                            #[trigger] sh1[i],
                        ) implies it1.contains(sh1[i]) by {
                        let i0: int = if i < index {
                            i
                        } else {
                            i + 1
                        };
                        let x = sh0[i0];
                        assert(sh1[i] == x);
                        assert(it0.contains(x));
                        let w = choose|w: int| 0 <= w < it0.len() && it0[w] == x;
                        assert(sh0[i0].record.room_id != sh0[index as int].record.room_id);
                        assert(it0[w].record.room_id != it0[ipos as int].record.room_id);
                        assert(w != ipos);
                        let w1: int = if w < ipos {
                            w
                        } else {
                            w - 1
                        };
                        assert(it1[w1] == it0[w]);
                    }
                    assert forall|k: int|
                        0 <= k < it1.len() implies (#[trigger] it1[k]).record.room_id
                        != prev@.record.room_id by {
                        let k0: int = if k < ipos {
                            k
                        } else {
                            k + 1
                        };
                        assert(it1[k] == it0[k0]);
                        assert(it0[k0].record.room_id != it0[ipos as int].record.room_id);
                    }
                    if has_room(it1, prev@.record.room_id) {
                        let k = choose|k: int|
                            0 <= k < it1.len() && it1[k].record.room_id == prev@.record.room_id;
                        assert(false);
                    }
                }
                Some(RoomListDiff::Remove { index: ipos })
            },
            None => {
                proof {
                    let it1 = self.items_view();
                    assert(it1 =~= it0);
                    assert forall|k: int|
                        0 <= k < it1.len() implies sh1.contains(#[trigger] it1[k])
                        && spec_matches_all(f, it1[k]) by {
                        let x = it0[k];
                        assert(sh0.contains(x));
                        let w = choose|w: int| 0 <= w < sh0.len() && sh0[w] == x;
                        if w == index {
                            assert(x.record.room_id == prev@.record.room_id);
                            assert(has_room(it0, prev@.record.room_id));
                            assert(false);
                        }
                        let w1: int = if w < index {
                            w
                        } else {
                            w - 1
                        };
                        assert(sh1[w1] == sh0[w]);
                    }
                    assert forall|i: int|
                        0 <= i < sh1.len() && spec_matches_all(
                            f,
                            #[trigger] sh1[i],
                        ) implies it1.contains(sh1[i]) by {
                        let i0: int = if i < index {
                            i
                        } else {
                            i + 1
                        };
                        assert(sh1[i] == sh0[i0]);
                        assert(it0.contains(sh0[i0]));
                    }
                }
                None
            },
        }
    }

    /// Inserts a fresh source room at `index` and, where it passes every
    /// filter, places it at its sorted position in the projection.
    fn apply_insert(&mut self, index: usize, room: &Room) -> (out: Option<RoomListDiff>)
        requires
            old(self).wf(),
            index <= old(self).shadow_view().len(),
            !has_room(old(self).shadow_view(), room@.record.room_id),
        ensures
            final(self).wf(),
            final(self).filters_view() == old(self).filters_view(),
            final(self).sorters_view() == old(self).sorters_view(),
            final(self).shadow_view() =~= old(self).shadow_view().insert(index as int, room@),
            match out {
                Some(d) => final(self).items_view() == apply_diff(old(self).items_view(), d@),
                None => final(self).items_view() == old(self).items_view(),
            },
    {
        let ghost sh0 = self.shadow_view();
        let ghost it0 = self.items_view();
        let ghost f = self.filters_view();
        let ghost ss = self.sorters_view();
        self.shadow.insert(index, room.clone());
        proof {
            assert(self.shadow_view() =~= sh0.insert(index as int, room@));
            lemma_insert_keeps_distinct(sh0, room@, index as int);
        }
        let ghost sh1 = self.shadow_view();
        if matches_all(&self.filters, room) {
            proof {
                if has_room(it0, room@.record.room_id) {
                    let k = choose|k: int|
                        0 <= k < it0.len() && it0[k].record.room_id == room@.record.room_id;
                    assert(sh0.contains(it0[k]));
                    let w = choose|w: int| 0 <= w < sh0.len() && sh0[w] == it0[k];
                    assert(false);
                }
            }
            let pos = insert_room_sorted(&self.sorter, &mut self.items, room.clone());
            proof {
                let it1 = self.items_view();
                assert(it1 =~= it0.insert(pos as int, room@));
                assert forall|k: int|
                    0 <= k < it1.len() implies sh1.contains(#[trigger] it1[k])
                    && spec_matches_all(f, it1[k]) by {
                    if k == pos {
                        assert(it1[k] == room@);
                        assert(sh1[index as int] == room@);
                    } else {
                        let k0: int = if k < pos {
                            k
                        } else {
                            k - 1
                        };
                        let x = it0[k0];
                        assert(it1[k] == x);
                        assert(sh0.contains(x));
                        let w = choose|w: int| 0 <= w < sh0.len() && sh0[w] == x;
                        let w1: int = if w < index {
                            w
                        } else {
                            w + 1
                        };
                        assert(sh1[w1] == sh0[w]);
                    }
                }
                assert forall|i: int|
                    0 <= i < sh1.len() && spec_matches_all(
                        f,
                        #[trigger] sh1[i],
                    ) implies it1.contains(sh1[i]) by {
                    if i == index {
                        assert(sh1[i] == room@);
                        assert(it1[pos as int] == room@);
                    } else {
                        let i0: int = if i < index {
                            i
                        } else {
                            i - 1
                        };
                        let x = sh0[i0];
                        assert(sh1[i] == x);
                        assert(it0.contains(x));
                        let w = choose|w: int| 0 <= w < it0.len() && it0[w] == x;
                        let w1: int = if w < pos {
                            w
                        } else {
                            w + 1
                        };
                        assert(it1[w1] == it0[w]);
                    }
                }
            }
            Some(RoomListDiff::Insert { index: pos, room: room.clone() })
        } else {
            proof {
                let it1 = self.items_view();
                assert forall|k: int|
                    0 <= k < it1.len() implies sh1.contains(#[trigger] it1[k])
                    && spec_matches_all(f, it1[k]) by {
                    let x = it0[k];
                    assert(sh0.contains(x));
                    let w = choose|w: int| 0 <= w < sh0.len() && sh0[w] == x;
                    let w1: int = if w < index {
                        w
                    } else {
                        w + 1
                    };
                    assert(sh1[w1] == sh0[w]);
                }
                assert forall|i: int|
                    0 <= i < sh1.len() && spec_matches_all(
                        f,
                        #[trigger] sh1[i],
                    ) implies self.items_view().contains(sh1[i]) by {
                    if i != index {
                        let i0: int = if i < index {
                            i
                        } else {
                            i - 1
                        };
                        assert(sh1[i] == sh0[i0]);
                        assert(it0.contains(sh0[i0]));
                    }
                }
            }
            None
        }
    }

    /// Applies one diff of the source table: the pipeline's copy of the
    /// source follows it, the projection is re-derived incrementally, and
    /// the returned diffs, replayed onto the previous projection, give
    /// the new projection — the republished stream is coherent.
    pub fn handle_diff(&mut self, diff: &RoomListDiff) -> (out: Vec<RoomListDiff>)
        requires
            old(self).wf(),
            diff_applicable(old(self).shadow_view(), diff@),
        ensures
            final(self).wf(),
            final(self).filters_view() == old(self).filters_view(),
            final(self).sorters_view() == old(self).sorters_view(),
            final(self).shadow_view() =~= apply_diff(old(self).shadow_view(), diff@),
            replay(old(self).items_view(), out.deep_view()) == final(self).items_view(),
    {
        let ghost sh0 = self.shadow_view();
        let ghost it0 = self.items_view();
        let mut out: Vec<RoomListDiff> = Vec::new();
        proof {
            assert(out.deep_view() =~= Seq::<RoomListDiffV>::empty());
            assert(replay(it0, Seq::<RoomListDiffV>::empty()) == it0);
        }
        match diff {
            RoomListDiff::Insert { index, room } => {
                let d = self.apply_insert(*index, room);
                if let Some(d) = d {
                    proof {
                        lemma_replay_one(it0, d@);
                    }
                    out.push(d);
                    proof {
                        assert(out.deep_view() =~= seq![d@]);
                    }
                }
            },
            RoomListDiff::Remove { index } => {
                let d = self.apply_remove(*index);
                if let Some(d) = d {
                    proof {
                        lemma_replay_one(it0, d@);
                    }
                    out.push(d);
                    proof {
                        assert(out.deep_view() =~= seq![d@]);
                    }
                }
            },
            RoomListDiff::Replace { index, room } => {
                proof {
                    if sh0[*index as int].record.room_id == room@.record.room_id {
                        assert forall|w: int|
                            0 <= w < sh0.remove(*index as int).len() implies (
                        #[trigger] sh0.remove(*index as int)[w]).record.room_id
                            != room@.record.room_id by {
                            let w0: int = if w < *index {
                                w
                            } else {
                                w + 1
                            };
                            assert(sh0.remove(*index as int)[w] == sh0[w0]);
                        }
                        if has_room(sh0.remove(*index as int), room@.record.room_id) {
                            let w = choose|w: int|
                                0 <= w < sh0.remove(*index as int).len() && sh0.remove(
                                    *index as int,
                                )[w].record.room_id == room@.record.room_id;
                            assert(false);
                        }
                    } else {
                        if has_room(sh0.remove(*index as int), room@.record.room_id) {
                            let w = choose|w: int|
                                0 <= w < sh0.remove(*index as int).len() && sh0.remove(
                                    *index as int,
                                )[w].record.room_id == room@.record.room_id;
                            let w0: int = if w < *index {
                                w
                            } else {
                                w + 1
                            };
                            assert(sh0[w0] == sh0.remove(*index as int)[w]);
                            assert(false);
                        }
                    }
                }
                let d1 = self.apply_remove(*index);
                let ghost itm = self.items_view();
                if let Some(d1) = d1 {
                    proof {
                        lemma_replay_one(it0, d1@);
                    }
                    out.push(d1);
                    proof {
                        assert(out.deep_view() =~= seq![d1@]);
                        assert(replay(it0, out.deep_view()) == itm);
                    }
                }
                proof {
                    assert(replay(it0, out.deep_view()) == itm);
                }
                let ghost out1 = out.deep_view();
                let d2 = self.apply_insert(*index, room);
                if let Some(d2) = d2 {
                    proof {
                        lemma_replay_push(it0, out1, d2@);
                    }
                    out.push(d2);
                    proof {
                        assert(out.deep_view() =~= out1.push(d2@));
                    }
                }
                proof {
                    assert(self.shadow_view() =~= sh0.remove(*index as int).insert(
                        *index as int,
                        room@,
                    ));
                    assert(self.shadow_view() =~= sh0.update(*index as int, room@));
                }
            },
        }
        out
    }
}

} // verus!
