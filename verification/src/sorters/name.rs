use vstd::prelude::*;
use vstd::string::StrSliceExecFns;
use core::cmp::Ordering;
use crate::rooms::{Room, RoomV};
use crate::sorters::{spec_sorter_cmp, Sorter};

verus! {

/// The case-folded key of one character: ASCII capital letters fold to
/// their small form, everything else stays as it is.
pub open spec fn fold_char(c: char) -> int {
    if 65 <= c as int && c as int <= 90 {
        c as int + 32
    } else {
        c as int
    }
}

/// The name a room is sorted by: its display name, or its id where no
/// name is known, so that the tie-break stays deterministic.
pub open spec fn name_key(r: RoomV) -> Seq<char> {
    match r.record.display_name {
        Some(n) => n,
        None => r.record.room_id,
    }
}

/// Case-folded lexicographic comparison of two names; a proper prefix
/// sorts before its extensions.
pub open spec fn lex_name_cmp(a: Seq<char>, b: Seq<char>) -> Ordering
    decreases a.len(),
{
    if a.len() == 0 && b.len() == 0 {
        Ordering::Equal
    } else if a.len() == 0 {
        Ordering::Less
    } else if b.len() == 0 {
        Ordering::Greater
    } else if fold_char(a[0]) < fold_char(b[0]) {
        Ordering::Less
    } else if fold_char(a[0]) > fold_char(b[0]) {
        Ordering::Greater
    } else {
        lex_name_cmp(a.drop_first(), b.drop_first())
    }
}

/// Swapping the names swaps the answer.
pub proof fn lemma_lex_name_flip(a: Seq<char>, b: Seq<char>)
    ensures
        lex_name_cmp(a, b) == crate::sorters::ord_reverse(lex_name_cmp(b, a)),
    decreases a.len(),
{
    if a.len() > 0 && b.len() > 0 && fold_char(a[0]) == fold_char(b[0]) {
        lemma_lex_name_flip(a.drop_first(), b.drop_first());
    }
}

/// Name comparison composes like a total preorder.
pub proof fn lemma_lex_name_trans(a: Seq<char>, b: Seq<char>, c: Seq<char>)
    ensures
        lex_name_cmp(a, b) == Ordering::Equal && lex_name_cmp(b, c) == Ordering::Equal
            ==> lex_name_cmp(a, c) == Ordering::Equal,
        lex_name_cmp(a, b) == Ordering::Less && lex_name_cmp(b, c) == Ordering::Less
            ==> lex_name_cmp(a, c) == Ordering::Less,
        lex_name_cmp(a, b) == Ordering::Less && lex_name_cmp(b, c) == Ordering::Equal
            ==> lex_name_cmp(a, c) == Ordering::Less,
        lex_name_cmp(a, b) == Ordering::Equal && lex_name_cmp(b, c) == Ordering::Less
            ==> lex_name_cmp(a, c) == Ordering::Less,
    decreases a.len(),
{
    if a.len() > 0 && b.len() > 0 && c.len() > 0 && fold_char(a[0]) == fold_char(b[0])
        && fold_char(b[0]) == fold_char(c[0]) {
        lemma_lex_name_trans(a.drop_first(), b.drop_first(), c.drop_first());
    }
}

/// The case-folded key of one character.
fn fold_char_exec(c: char) -> (k: u32)
    ensures
        k as int == fold_char(c),
{
    let u = c as u32;
    if 65 <= u && u <= 90 {
        u + 32
    } else {
        u
    }
}

/// Case-folded lexicographic comparison of two strings.
pub fn compare_folded(a: &String, b: &String) -> (o: Ordering)
    ensures
        o == lex_name_cmp(a@, b@),
{
    let an: usize = a.as_str().unicode_len();
    let bn: usize = b.as_str().unicode_len();
    let mut i: usize = 0;
    proof {
        assert(a@.skip(0) =~= a@);
        assert(b@.skip(0) =~= b@);
    }
    while i < an && i < bn
        invariant
            an == a@.len(),
            bn == b@.len(),
            0 <= i <= an,
            0 <= i <= bn,
            lex_name_cmp(a@, b@) == lex_name_cmp(a@.skip(i as int), b@.skip(i as int)),
        decreases an - i,
    {
        let ca = a.as_str().get_char(i);
        let cb = b.as_str().get_char(i);
        let fa = fold_char_exec(ca);
        let fb = fold_char_exec(cb);
        proof {
            let sa = a@.skip(i as int);
            let sb = b@.skip(i as int);
            assert(sa.len() > 0 && sb.len() > 0);
            assert(sa[0] == a@[i as int] && sb[0] == b@[i as int]);
            assert(sa.drop_first() =~= a@.skip(i + 1));
            assert(sb.drop_first() =~= b@.skip(i + 1));
        }
        if fa < fb {
            return Ordering::Less;
        } else if fa > fb {
            return Ordering::Greater;
        }
        i += 1;
    }
    proof {
        assert(a@.skip(i as int).len() == an - i);
        assert(b@.skip(i as int).len() == bn - i);
    }
    if i < bn {
        Ordering::Less
    } else if i < an {
        Ordering::Greater
    } else {
        Ordering::Equal
    }
}

/// Compares two rooms by case-folded name; a room compared against its
/// own id answers `Greater`, by the self-comparison convention.
pub fn cmp_name(left: &Room, right: &Room) -> (o: Ordering)
    ensures
        o == spec_sorter_cmp(Sorter::Name, left@, right@),
{
    if left.room_id().eq(right.room_id()) {
        return Ordering::Greater;
    }
    let lname: &String = match left.display_name() {
        Some(n) => n,
        None => left.room_id(),
    };
    let rname: &String = match right.display_name() {
        Some(n) => n,
        None => right.room_id(),
    };
    compare_folded(lname, rname)
}

/// The name sorting criterion.
pub fn new_sorter() -> (s: Sorter)
    ensures
        s == Sorter::Name,
{
    Sorter::Name
}

} // verus!
