use vstd::prelude::*;
use core::cmp::Ordering;
use crate::rooms::{Room, RoomV};

pub mod latest_event;
pub mod name;
pub mod recency;
pub mod tag;
pub mod unread;

use latest_event::spec_latest_event_weight;
use name::{lex_name_cmp, name_key};
use tag::{spec_tag_weight, TagMatcher};
use unread::{spec_unread_weight, UnreadMatcher};

verus! {

/// One sorting criterion over rooms.
#[derive(Clone, Copy, PartialEq, Eq, Structural, Debug)]
pub enum Sorter {
    /// By tag tier: invited rooms first, then favourites and low-priority
    /// rooms as configured.
    Tag(TagMatcher),
    /// By unread tier, as configured.
    Unread(UnreadMatcher),
    /// Rooms whose latest event is a local echo first.
    LatestEvent,
    /// Most recently active rooms first.
    Recency,
    /// By display name, case-folded.
    Name,
}

/// The comparison `Ordering` of two integers.
pub open spec fn ord_of_ints(a: int, b: int) -> Ordering {
    if a < b {
        Ordering::Less
    } else if a == b {
        Ordering::Equal
    } else {
        Ordering::Greater
    }
}

/// The opposite of an `Ordering`.
pub open spec fn ord_reverse(o: Ordering) -> Ordering {
    match o {
        Ordering::Less => Ordering::Greater,
        Ordering::Equal => Ordering::Equal,
        Ordering::Greater => Ordering::Less,
    }
}

/// What one criterion says about two rooms, before the self-comparison
/// convention is applied.
pub open spec fn spec_stage_cmp(s: Sorter, l: RoomV, r: RoomV) -> Ordering {
    match s {
        Sorter::Tag(m) => ord_of_ints(
            spec_tag_weight(l.record, m.pin_favorites, m.bury_low_priority),
            spec_tag_weight(r.record, m.pin_favorites, m.bury_low_priority),
        ),
        Sorter::Unread(m) => ord_of_ints(
            spec_unread_weight(l.record, m.client_generated_counts, m.with_silent_unread),
            spec_unread_weight(r.record, m.client_generated_counts, m.with_silent_unread),
        ),
        Sorter::LatestEvent => ord_of_ints(
            spec_latest_event_weight(l.record),
            spec_latest_event_weight(r.record),
        ),
        Sorter::Recency => ord_of_ints(r.record.recency_stamp as int, l.record.recency_stamp as int),
        Sorter::Name => lex_name_cmp(name_key(l), name_key(r)),
    }
}

/// What one criterion answers for two rooms: two rooms with one and the
/// same id compare as `Greater`, by the documented self-comparison
/// convention; any other pair is compared by the criterion itself.
pub open spec fn spec_sorter_cmp(s: Sorter, l: RoomV, r: RoomV) -> Ordering {
    if l.record.room_id == r.record.room_id {
        Ordering::Greater
    } else {
        spec_stage_cmp(s, l, r)
    }
}

/// The lexicographic combination of a criterion list: the first criterion
/// that does not answer `Equal` decides; rooms that every criterion leaves
/// `Equal` are `Equal`.
pub open spec fn spec_lex_cmp(ss: Seq<Sorter>, l: RoomV, r: RoomV) -> Ordering
    decreases ss.len(),
{
    if ss.len() == 0 {
        Ordering::Equal
    } else {
        let o = spec_sorter_cmp(ss[0], l, r);
        if o == Ordering::Equal {
            spec_lex_cmp(ss.drop_first(), l, r)
        } else {
            o
        }
    }
}

/// The lexicographic combination without the self-comparison convention.
pub open spec fn spec_lex_stage_cmp(ss: Seq<Sorter>, l: RoomV, r: RoomV) -> Ordering
    decreases ss.len(),
{
    if ss.len() == 0 {
        Ordering::Equal
    } else {
        let o = spec_stage_cmp(ss[0], l, r);
        if o == Ordering::Equal {
            spec_lex_stage_cmp(ss.drop_first(), l, r)
        } else {
            o
        }
    }
}

/// On rooms with different ids the combined comparator and its pure stage
/// form agree.
pub proof fn lemma_lex_cmp_stage(ss: Seq<Sorter>, l: RoomV, r: RoomV)
    requires
        l.record.room_id != r.record.room_id,
    ensures
        spec_lex_cmp(ss, l, r) == spec_lex_stage_cmp(ss, l, r),
    decreases ss.len(),
{
    if ss.len() > 0 {
        lemma_lex_cmp_stage(ss.drop_first(), l, r);
    }
}

/// Each criterion answers in opposite directions on a swapped pair.
pub proof fn lemma_stage_flip(s: Sorter, l: RoomV, r: RoomV)
    ensures
        spec_stage_cmp(s, l, r) == ord_reverse(spec_stage_cmp(s, r, l)),
{
    match s {
        Sorter::Name => {
            name::lemma_lex_name_flip(name_key(l), name_key(r));
        },
        _ => {},
    }
}

/// Each criterion compares like a total preorder: `Equal` composes to
/// `Equal`, and `Less` composed with `Less` or `Equal` stays `Less`.
pub proof fn lemma_stage_trans(s: Sorter, a: RoomV, b: RoomV, c: RoomV)
    ensures
        spec_stage_cmp(s, a, b) == Ordering::Equal && spec_stage_cmp(s, b, c) == Ordering::Equal
            ==> spec_stage_cmp(s, a, c) == Ordering::Equal,
        spec_stage_cmp(s, a, b) == Ordering::Less && spec_stage_cmp(s, b, c) == Ordering::Less
            ==> spec_stage_cmp(s, a, c) == Ordering::Less,
        spec_stage_cmp(s, a, b) == Ordering::Less && spec_stage_cmp(s, b, c) == Ordering::Equal
            ==> spec_stage_cmp(s, a, c) == Ordering::Less,
        spec_stage_cmp(s, a, b) == Ordering::Equal && spec_stage_cmp(s, b, c) == Ordering::Less
            ==> spec_stage_cmp(s, a, c) == Ordering::Less,
{
    match s {
        Sorter::Name => {
            name::lemma_lex_name_trans(name_key(a), name_key(b), name_key(c));
        },
        _ => {},
    }
}

/// The combined comparator answers in opposite directions on a swapped
/// pair of distinct rooms.
pub proof fn lemma_lex_flip(ss: Seq<Sorter>, l: RoomV, r: RoomV)
    ensures
        spec_lex_stage_cmp(ss, l, r) == ord_reverse(spec_lex_stage_cmp(ss, r, l)),
    decreases ss.len(),
{
    if ss.len() > 0 {
        lemma_stage_flip(ss[0], l, r);
        lemma_lex_flip(ss.drop_first(), l, r);
    }
}

/// The combined comparator is transitive.
pub proof fn lemma_lex_trans(ss: Seq<Sorter>, a: RoomV, b: RoomV, c: RoomV)
    ensures
        spec_lex_stage_cmp(ss, a, b) != Ordering::Greater && spec_lex_stage_cmp(ss, b, c)
            != Ordering::Greater ==> spec_lex_stage_cmp(ss, a, c) != Ordering::Greater,
        spec_lex_stage_cmp(ss, a, b) == Ordering::Equal && spec_lex_stage_cmp(ss, b, c)
            == Ordering::Equal ==> spec_lex_stage_cmp(ss, a, c) == Ordering::Equal,
    decreases ss.len(),
{
    if ss.len() > 0 {
        lemma_stage_trans(ss[0], a, b, c);
        lemma_lex_trans(ss.drop_first(), a, b, c);
    }
}

/// Sort stability: two rooms that every criterion of the stack leaves
/// `Equal` are not strictly ordered by the combined comparator, so a
/// stable re-sort never swaps them.
pub proof fn lemma_lex_all_equal(ss: Seq<Sorter>, l: RoomV, r: RoomV)
    requires
        forall|i: int| 0 <= i < ss.len() ==> spec_stage_cmp(#[trigger] ss[i], l, r)
            == Ordering::Equal,
    ensures
        spec_lex_stage_cmp(ss, l, r) == Ordering::Equal,
    decreases ss.len(),
{
    if ss.len() > 0 {
        assert(spec_stage_cmp(ss[0], l, r) == Ordering::Equal);
        assert(forall|i: int|
            0 <= i < ss.drop_first().len() ==> ss.drop_first()[i] == ss[i + 1]);
        lemma_lex_all_equal(ss.drop_first(), l, r);
    }
}

impl Sorter {
    /// Compares two rooms by this criterion, with the self-comparison
    /// convention applied first.
    pub fn cmp(&self, left: &Room, right: &Room) -> (o: Ordering)
        ensures
            o == spec_sorter_cmp(*self, left@, right@),
    {
        match self {
            Sorter::Tag(m) => m.matches(left, right),
            Sorter::Unread(m) => m.matches(left, right),
            Sorter::LatestEvent => latest_event::cmp_latest_event(left, right),
            Sorter::Recency => recency::cmp_recency(left, right),
            Sorter::Name => name::cmp_name(left, right),
        }
    }
}

/// The lexicographic combination of a criterion list, as a value.
pub struct LexicographicSorter {
    /// The criteria, in decreasing precedence.
    pub sorters: Vec<Sorter>,
}

/// Builds the lexicographic combination of `sorters`.
pub fn new_sorter_lexicographic(sorters: Vec<Sorter>) -> (r: LexicographicSorter)
    ensures
        r.sorters@ == sorters@,
{
    LexicographicSorter { sorters }
}

impl LexicographicSorter {
    /// Compares two rooms by the whole stack: the first criterion that
    /// does not answer `Equal` decides.
    pub fn cmp(&self, left: &Room, right: &Room) -> (o: Ordering)
        ensures
            o == spec_lex_cmp(self.sorters@, left@, right@),
    {
        let n: usize = self.sorters.len();
        let mut i: usize = 0;
        proof {
            assert(self.sorters@.skip(0) =~= self.sorters@);
        }
        while i < n
            invariant
                n == self.sorters.len(),
                0 <= i <= n,
                spec_lex_cmp(self.sorters@, left@, right@) == spec_lex_cmp(
                    self.sorters@.skip(i as int),
                    left@,
                    right@,
                ),
            decreases n - i,
        {
            let o = self.sorters[i].cmp(left, right);
            proof {
                let ss = self.sorters@.skip(i as int);
                assert(ss[0] == self.sorters@[i as int]);
                assert(ss.drop_first() =~= self.sorters@.skip(i + 1));
            }
            if !matches!(o, Ordering::Equal) {
                return o;
            }
            i += 1;
        }
        proof {
            assert(self.sorters@.skip(n as int).len() == 0);
        }
        Ordering::Equal
    }
}

} // verus!
