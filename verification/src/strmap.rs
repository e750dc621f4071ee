use vstd::prelude::*;

verus! {

/// True when no two entries of `s` share a key.
pub open spec fn entry_keys_distinct<T>(s: Seq<(Seq<char>, T)>) -> bool {
    forall|i: int, j: int| 0 <= i < j < s.len() ==> s[i].0 != s[j].0
}

/// The finite map described by an entry sequence, later entries winning.
pub open spec fn map_of_entries<T>(s: Seq<(Seq<char>, T)>) -> Map<Seq<char>, T>
    decreases s.len(),
{
    if s.len() == 0 {
        Map::empty()
    } else {
        map_of_entries(s.drop_last()).insert(s.last().0, s.last().1)
    }
}

proof fn lemma_map_of_entries_contains<T>(s: Seq<(Seq<char>, T)>, k: Seq<char>)
    ensures
        map_of_entries(s).contains_key(k) <==> (exists|i: int| 0 <= i < s.len() && s[i].0 == k),
    decreases s.len(),
{
    if s.len() > 0 {
        lemma_map_of_entries_contains(s.drop_last(), k);
        if map_of_entries(s).contains_key(k) {
            if s.last().0 == k {
                assert(s[s.len() - 1].0 == k);
            } else {
                let i = choose|i: int| 0 <= i < s.drop_last().len() && s.drop_last()[i].0 == k;
                assert(s[i].0 == k);
            }
        }
        if exists|i: int| 0 <= i < s.len() && s[i].0 == k {
            let i = choose|i: int| 0 <= i < s.len() && s[i].0 == k;
            if i < s.len() - 1 {
                assert(s.drop_last()[i].0 == k);
            }
        }
    }
}

proof fn lemma_map_of_entries_get<T>(s: Seq<(Seq<char>, T)>, i: int)
    requires
        entry_keys_distinct(s),
        0 <= i < s.len(),
    ensures
        map_of_entries(s).contains_key(s[i].0),
        map_of_entries(s)[s[i].0] == s[i].1,
    decreases s.len(),
{
    lemma_map_of_entries_contains(s, s[i].0);
    if i == s.len() - 1 {
    } else {
        assert(s.drop_last()[i] == s[i]);
        lemma_map_of_entries_get(s.drop_last(), i);
        assert(s[i].0 != s.last().0);
    }
}

proof fn lemma_map_of_entries_update<T>(s: Seq<(Seq<char>, T)>, i: int, v: T)
    requires
        entry_keys_distinct(s),
        0 <= i < s.len(),
    ensures
        entry_keys_distinct(s.update(i, (s[i].0, v))),
        map_of_entries(s.update(i, (s[i].0, v))) =~= map_of_entries(s).insert(s[i].0, v),
    decreases s.len(),
{
    let t = s.update(i, (s[i].0, v));
    assert forall|p: int, q: int| 0 <= p < q < t.len() implies t[p].0 != t[q].0 by {
        assert(t[p].0 == s[p].0 && t[q].0 == s[q].0);
    }
    if i == s.len() - 1 {
        assert(t.drop_last() =~= s.drop_last());
    } else {
        assert(t.drop_last() =~= s.drop_last().update(i, (s[i].0, v)));
        assert(s.drop_last()[i] == s[i]);
        lemma_map_of_entries_update(s.drop_last(), i, v);
        assert(s.last().0 != s[i].0);
        assert(t.last() == s.last());
    }
}

proof fn lemma_map_of_entries_remove<T>(s: Seq<(Seq<char>, T)>, i: int)
    requires
        entry_keys_distinct(s),
        0 <= i < s.len(),
    ensures
        entry_keys_distinct(s.remove(i)),
        map_of_entries(s.remove(i)) =~= map_of_entries(s).remove(s[i].0),
    decreases s.len(),
{
    let t = s.remove(i);
    assert forall|p: int, q: int| 0 <= p < q < t.len() implies t[p].0 != t[q].0 by {
        let sp: int = if p < i { p } else { p + 1 };
        let sq: int = if q < i { q } else { q + 1 };
        assert(t[p].0 == s[sp].0 && t[q].0 == s[sq].0);
    }
    if i == s.len() - 1 {
        assert(t =~= s.drop_last());
        lemma_map_of_entries_contains(t, s[i].0);
        assert(forall|j: int| 0 <= j < t.len() ==> t[j] == s[j] && s[j].0 != s[i].0);
        assert(!map_of_entries(t).contains_key(s[i].0));
        assert(map_of_entries(s) == map_of_entries(t).insert(s[i].0, s[i].1));
    } else {
        assert(t.drop_last() =~= s.drop_last().remove(i));
        assert(s.drop_last()[i] == s[i]);
        lemma_map_of_entries_remove(s.drop_last(), i);
        assert(t.last() == s.last());
        assert(s.last().0 != s[i].0);
    }
}

proof fn lemma_map_of_entries_card<T>(s: Seq<(Seq<char>, T)>)
    requires
        entry_keys_distinct(s),
    ensures
        map_of_entries(s).dom().finite(),
        map_of_entries(s).dom().len() == s.len(),
    decreases s.len(),
{
    if s.len() > 0 {
        lemma_map_of_entries_card(s.drop_last());
        lemma_map_of_entries_contains(s.drop_last(), s.last().0);
        assert(forall|j: int| 0 <= j < s.len() - 1 ==> s.drop_last()[j] == s[j]
            && s[j].0 != s[s.len() - 1].0);
        assert(!map_of_entries(s.drop_last()).contains_key(s.last().0));
    }
}

/// A value stored in a [`StrMap`]; `val_inv` is the value's own
/// well-formedness, carried through every map operation.
pub trait MapValue: View + Sized {
    spec fn val_inv(&self) -> bool;
}

impl MapValue for String {
    open spec fn val_inv(&self) -> bool {
        true
    }
}

impl<V: MapValue> MapValue for StrMap<V> {
    open spec fn val_inv(&self) -> bool {
        self.wf()
    }
}

/// A finite map from string keys to values, stored as a duplicate-free
/// entry list; its view is the mathematical map over the key views.
pub struct StrMap<V> {
    entries: Vec<(String, V)>,
}

impl<V: MapValue> StrMap<V> {
    /// The stored entries, in storage order.
    pub closed spec fn spec_entries(&self) -> Seq<(String, V)> {
        self.entries@
    }

    /// The views of the stored entries, in storage order.
    pub closed spec fn entry_views(&self) -> Seq<(Seq<char>, V::V)> {
        self.entries@.map_values(|e: (String, V)| (e.0@, e.1@))
    }

    /// The keys of the stored entries, in storage order.
    pub open spec fn keys_seq(&self) -> Seq<Seq<char>> {
        self.entry_views().map_values(|e: (Seq<char>, V::V)| e.0)
    }

    /// Well-formed: no two entries share a key, and every value satisfies
    /// its own invariant.
    pub open spec fn wf(&self) -> bool {
        &&& entry_keys_distinct(self.entry_views())
        &&& forall|i: int|
            0 <= i < self.spec_entries().len() ==> (#[trigger] self.spec_entries()[i].1).val_inv()
    }

    /// Relates the key sequence to the map view.
    pub proof fn lemma_keys(&self)
        requires
            self.wf(),
        ensures
            self.keys_seq().len() == self@.dom().len(),
            forall|k: Seq<char>| self@.contains_key(k) <==> self.keys_seq().contains(k),
            forall|i: int, j: int|
                0 <= i < j < self.keys_seq().len() ==> self.keys_seq()[i] != self.keys_seq()[j],
    {
        let s = self.entry_views();
        lemma_map_of_entries_card(s);
        assert forall|k: Seq<char>| self@.contains_key(k) <==> self.keys_seq().contains(k) by {
            lemma_map_of_entries_contains(s, k);
            if self@.contains_key(k) {
                let i = choose|i: int| 0 <= i < s.len() && s[i].0 == k;
                assert(self.keys_seq()[i] == k);
            }
            if self.keys_seq().contains(k) {
                let i = choose|i: int| 0 <= i < self.keys_seq().len() && self.keys_seq()[i] == k;
                assert(s[i].0 == k);
            }
        }
    }

    /// Creates an empty map.
    pub fn new() -> (r: Self)
        ensures
            r.wf(),
            r@ =~= Map::<Seq<char>, V::V>::empty(),
            r.keys_seq() =~= Seq::<Seq<char>>::empty(),
    {
        let r = StrMap { entries: Vec::new() };
        proof {
            assert(r.entry_views() =~= Seq::<(Seq<char>, V::V)>::empty());
        }
        r
    }

    /// The number of entries.
    pub fn len(&self) -> (n: usize)
        requires
            self.wf(),
        ensures
            n == self@.dom().len(),
            n == self.keys_seq().len(),
            self@.dom().finite(),
    {
        proof {
            lemma_map_of_entries_card(self.entry_views());
        }
        self.entries.len()
    }

    /// Whether `key` is present.
    pub fn contains_key(&self, key: &String) -> (b: bool)
        requires
            self.wf(),
        ensures
            b == self@.contains_key(key@),
    {
        let n: usize = self.entries.len();
        let mut i: usize = 0;
        while i < n
            invariant
                n == self.entries.len(),
                0 <= i <= n,
                forall|j: int| 0 <= j < i ==> self.entry_views()[j].0 != key@,
            decreases n - i,
        {
            if self.entries[i].0.eq(key) {
                proof {
                    assert(self.entry_views()[i as int].0 == key@);
                    lemma_map_of_entries_contains(self.entry_views(), key@);
                }
                return true;
            }
            i += 1;
        }
        proof {
            lemma_map_of_entries_contains(self.entry_views(), key@);
        }
        false
    }

    /// Looks `key` up.
    pub fn get(&self, key: &String) -> (r: Option<&V>)
        requires
            self.wf(),
        ensures
            match r {
                Some(v) => self@.contains_key(key@) && v@ == self@[key@] && v.val_inv(),
                None => !self@.contains_key(key@),
            },
    {
        let n: usize = self.entries.len();
        let mut i: usize = 0;
        while i < n
            invariant
                n == self.entries.len(),
                0 <= i <= n,
                self.wf(),
                forall|j: int| 0 <= j < i ==> self.entry_views()[j].0 != key@,
            decreases n - i,
        {
            if self.entries[i].0.eq(key) {
                proof {
                    assert(self.entry_views()[i as int].0 == key@);
                    lemma_map_of_entries_get(self.entry_views(), i as int);
                    assert(self.spec_entries()[i as int].1.val_inv());
                }
                return Some(&self.entries[i].1);
            }
            i += 1;
        }
        proof {
            lemma_map_of_entries_contains(self.entry_views(), key@);
        }
        None
    }

    /// Inserts `value` under `key`, overwriting any existing entry.
    pub fn insert(&mut self, key: String, value: V)
        requires
            old(self).wf(),
            value.val_inv(),
        ensures
            final(self).wf(),
            final(self)@ =~= old(self)@.insert(key@, value@),
    {
        let ghost s0 = self.entry_views();
        let n: usize = self.entries.len();
        let mut i: usize = 0;
        while i < n
            invariant
                n == self.entries.len(),
                0 <= i <= n,
                self.wf(),
                *self == *old(self),
                self.entry_views() == s0,
                s0 == old(self).entry_views(),
                value.val_inv(),
                forall|j: int| 0 <= j < i ==> self.entry_views()[j].0 != key@,
            decreases n - i,
        {
            if self.entries[i].0.eq(&key) {
                proof {
                    assert(s0[i as int].0 == key@);
                }
                let ghost e0 = self.spec_entries();
                self.entries.remove(i);
                self.entries.insert(i, (key, value));
                proof {
                    assert(self.entry_views() =~= s0.update(i as int, (s0[i as int].0, value@)));
                    lemma_map_of_entries_update(s0, i as int, value@);
                    assert(self.spec_entries() =~= e0.update(i as int, (key, value)));
                    assert forall|j: int|
                        0 <= j < self.spec_entries().len() implies (
                    #[trigger] self.spec_entries()[j].1).val_inv() by {
                        if j != i {
                            assert(self.spec_entries()[j] == e0[j]);
                        }
                    }
                }
                return ;
            }
            i += 1;
        }
        let ghost e0 = self.spec_entries();
        self.entries.push((key, value));
        proof {
            assert(self.entry_views() =~= s0.push((key@, value@)));
            assert(self.entry_views().drop_last() =~= s0);
            assert forall|p: int, q: int|
                0 <= p < q < self.entry_views().len() implies self.entry_views()[p].0
                != self.entry_views()[q].0 by {
                if q == self.entry_views().len() - 1 {
                    assert(self.entry_views()[p].0 == s0[p].0);
                    lemma_map_of_entries_contains(s0, key@);
                }
            }
            assert(self.spec_entries() =~= e0.push((key, value)));
            assert forall|j: int|
                0 <= j < self.spec_entries().len() implies (
            #[trigger] self.spec_entries()[j].1).val_inv() by {
                if j < e0.len() {
                    assert(self.spec_entries()[j] == e0[j]);
                }
            }
        }
    }

    /// Removes `key`, returning the value that was stored under it.
    pub fn remove(&mut self, key: &String) -> (r: Option<V>)
        requires
            old(self).wf(),
        ensures
            final(self).wf(),
            final(self)@ =~= old(self)@.remove(key@),
            match r {
                Some(v) => old(self)@.contains_key(key@) && v@ == old(self)@[key@]
                    && v.val_inv(),
                None => !old(self)@.contains_key(key@) && final(self)@ =~= old(self)@,
            },
    {
        proof {
            lemma_map_of_entries_contains(self.entry_views(), key@);
        }
        let ghost s0 = self.entry_views();
        let n: usize = self.entries.len();
        let mut i: usize = 0;
        while i < n
            invariant
                n == self.entries.len(),
                0 <= i <= n,
                self.wf(),
                *self == *old(self),
                self.entry_views() == s0,
                s0 == old(self).entry_views(),
                forall|j: int| 0 <= j < i ==> self.entry_views()[j].0 != key@,
            decreases n - i,
        {
            if self.entries[i].0.eq(key) {
                proof {
                    assert(s0[i as int].0 == key@);
                    lemma_map_of_entries_get(s0, i as int);
                    lemma_map_of_entries_remove(s0, i as int);
                }
                let ghost e0 = self.spec_entries();
                let e = self.entries.remove(i);
                proof {
                    assert(self.entry_views() =~= s0.remove(i as int));
                    assert(e == e0[i as int]);
                    assert(self.spec_entries() =~= e0.remove(i as int));
                    assert forall|j: int|
                        0 <= j < self.spec_entries().len() implies (
                    #[trigger] self.spec_entries()[j].1).val_inv() by {
                        let sj: int = if j < i { j } else { j + 1 };
                        assert(self.spec_entries()[j] == e0[sj]);
                    }
                }
                return Some(e.1);
            }
            i += 1;
        }
        proof {
            assert(forall|j: int| 0 <= j < s0.len() ==> s0[j].0 != key@);
            assert(!old(self)@.contains_key(key@));
            assert(final(self)@ =~= old(self)@.remove(key@));
        }
        None
    }

    /// Removes and returns the first stored entry, if any.
    pub fn pop_entry(&mut self) -> (r: Option<(String, V)>)
        requires
            old(self).wf(),
        ensures
            final(self).wf(),
            match r {
                Some(e) => {
                    &&& old(self)@.contains_key(e.0@)
                    &&& e.1@ == old(self)@[e.0@]
                    &&& e.1.val_inv()
                    &&& final(self)@ =~= old(self)@.remove(e.0@)
                },
                None => old(self)@ =~= Map::<Seq<char>, V::V>::empty() && final(self)@ =~= old(
                    self,
                )@,
            },
    {
        if self.entries.len() == 0 {
            proof {
                assert(self.entry_views() =~= Seq::<(Seq<char>, V::V)>::empty());
            }
            return None;
        }
        let ghost s0 = self.entry_views();
        proof {
            lemma_map_of_entries_get(s0, 0);
            lemma_map_of_entries_remove(s0, 0);
        }
        let ghost e0 = self.spec_entries();
        let e = self.entries.remove(0);
        proof {
            assert(self.entry_views() =~= s0.remove(0));
            assert(e == e0[0]);
            assert(self.spec_entries() =~= e0.remove(0));
            assert forall|j: int|
                0 <= j < self.spec_entries().len() implies (
            #[trigger] self.spec_entries()[j].1).val_inv() by {
                assert(self.spec_entries()[j] == e0[j + 1]);
            }
        }
        Some(e)
    }

    /// The key stored at position `i`.
    pub fn key_at(&self, i: usize) -> (r: &String)
        requires
            self.wf(),
            i < self.keys_seq().len(),
        ensures
            r@ == self.keys_seq()[i as int],
            self@.contains_key(r@),
    {
        proof {
            lemma_map_of_entries_get(self.entry_views(), i as int);
        }
        &self.entries[i].0
    }

    /// The value stored at position `i`.
    pub fn value_at(&self, i: usize) -> (r: &V)
        requires
            self.wf(),
            i < self.keys_seq().len(),
        ensures
            r@ == self@[self.keys_seq()[i as int]],
            r.val_inv(),
    {
        proof {
            lemma_map_of_entries_get(self.entry_views(), i as int);
            assert(self.spec_entries()[i as int].1.val_inv());
        }
        &self.entries[i].1
    }

    /// Moves every entry of `other` into `self`, `other`'s entries winning
    /// on key collisions.
    pub fn merge_from(&mut self, other: StrMap<V>)
        requires
            old(self).wf(),
            other.wf(),
        ensures
            final(self).wf(),
            final(self)@ =~= old(self)@.union_prefer_right(other@),
    {
        let mut rest = other;
        loop
            invariant
                self.wf(),
                rest.wf(),
                self@.union_prefer_right(rest@) =~= old(self)@.union_prefer_right(other@),
            decreases rest@.dom().len(),
        {
            proof {
                lemma_map_of_entries_card(rest.entry_views());
            }
            match rest.pop_entry() {
                Some((k, v)) => {
                    proof {
                        lemma_map_of_entries_card(rest.entry_views());
                    }
                    self.insert(k, v);
                },
                None => {
                    proof {
                        assert(self@.union_prefer_right(rest@) =~= self@);
                    }
                    return ;
                },
            }
        }
    }
}

/// The union of two nested maps: inner maps are merged key by key, the
/// right side winning.
pub open spec fn nested_union2<T>(
    a: Map<Seq<char>, Map<Seq<char>, T>>,
    b: Map<Seq<char>, Map<Seq<char>, T>>,
) -> Map<Seq<char>, Map<Seq<char>, T>> {
    Map::new(
        |k: Seq<char>| a.contains_key(k) || b.contains_key(k),
        |k: Seq<char>|
            if b.contains_key(k) {
                if a.contains_key(k) {
                    a[k].union_prefer_right(b[k])
                } else {
                    b[k]
                }
            } else {
                a[k]
            },
    )
}

/// The union of two doubly nested maps: merged key by key at every level,
/// the right side winning.
pub open spec fn nested_union3<T>(
    a: Map<Seq<char>, Map<Seq<char>, Map<Seq<char>, T>>>,
    b: Map<Seq<char>, Map<Seq<char>, Map<Seq<char>, T>>>,
) -> Map<Seq<char>, Map<Seq<char>, Map<Seq<char>, T>>> {
    Map::new(
        |k: Seq<char>| a.contains_key(k) || b.contains_key(k),
        |k: Seq<char>|
            if b.contains_key(k) {
                if a.contains_key(k) {
                    nested_union2(a[k], b[k])
                } else {
                    b[k]
                }
            } else {
                a[k]
            },
    )
}

impl<V: MapValue> StrMap<StrMap<V>> {
    /// Moves every entry of `other` into `self`, merging inner maps key
    /// by key, `other`'s entries winning on full key collisions.
    pub fn merge_nested2_from(&mut self, other: StrMap<StrMap<V>>)
        requires
            old(self).wf(),
            other.wf(),
        ensures
            final(self).wf(),
            final(self)@ =~~= nested_union2(old(self)@, other@),
    {
        let mut rest = other;
        loop
            invariant
                self.wf(),
                rest.wf(),
                nested_union2(self@, rest@) =~~= nested_union2(old(self)@, other@),
            decreases rest@.dom().len(),
        {
            proof {
                lemma_map_of_entries_card(rest.entry_views());
            }
            match rest.pop_entry() {
                Some((k, inner)) => {
                    proof {
                        lemma_map_of_entries_card(rest.entry_views());
                    }
                    let ghost pre = self@;
                    let ghost restpre = rest@.insert(k@, inner@);
                    match self.remove(&k) {
                        Some(mut mine) => {
                            let ghost minev = mine@;
                            mine.merge_from(inner);
                            self.insert(k, mine);
                            proof {
                                assert(self@ =~= pre.insert(k@, minev.union_prefer_right(
                                    restpre[k@],
                                )));
                                assert(nested_union2(self@, rest@) =~~= nested_union2(
                                    pre,
                                    restpre,
                                ));
                            }
                        },
                        None => {
                            self.insert(k, inner);
                            proof {
                                assert(self@ =~= pre.insert(k@, restpre[k@]));
                                assert(nested_union2(self@, rest@) =~~= nested_union2(
                                    pre,
                                    restpre,
                                ));
                            }
                        },
                    }
                },
                None => {
                    proof {
                        assert(nested_union2(self@, rest@) =~~= self@);
                    }
                    return ;
                },
            }
        }
    }
}

impl<V: MapValue> StrMap<StrMap<StrMap<V>>> {
    /// Moves every entry of `other` into `self`, merging at every level,
    /// `other`'s entries winning on full key collisions.
    pub fn merge_nested3_from(&mut self, other: StrMap<StrMap<StrMap<V>>>)
        requires
            old(self).wf(),
            other.wf(),
        ensures
            final(self).wf(),
            final(self)@ =~~= nested_union3(old(self)@, other@),
    {
        let mut rest = other;
        loop
            invariant
                self.wf(),
                rest.wf(),
                nested_union3(self@, rest@) =~~= nested_union3(old(self)@, other@),
            decreases rest@.dom().len(),
        {
            proof {
                lemma_map_of_entries_card(rest.entry_views());
            }
            match rest.pop_entry() {
                Some((k, inner)) => {
                    proof {
                        lemma_map_of_entries_card(rest.entry_views());
                    }
                    let ghost pre = self@;
                    let ghost restpre = rest@.insert(k@, inner@);
                    match self.remove(&k) {
                        Some(mut mine) => {
                            let ghost minev = mine@;
                            mine.merge_nested2_from(inner);
                            self.insert(k, mine);
                            proof {
                                assert(self@ =~~= pre.insert(k@, nested_union2(
                                    minev,
                                    restpre[k@],
                                )));
                                assert(nested_union3(self@, rest@) =~~= nested_union3(
                                    pre,
                                    restpre,
                                ));
                            }
                        },
                        None => {
                            self.insert(k, inner);
                            proof {
                                assert(self@ =~= pre.insert(k@, restpre[k@]));
                                assert(nested_union3(self@, rest@) =~~= nested_union3(
                                    pre,
                                    restpre,
                                ));
                            }
                        },
                    }
                },
                None => {
                    proof {
                        assert(nested_union3(self@, rest@) =~~= self@);
                    }
                    return ;
                },
            }
        }
    }
}

impl<V: MapValue> View for StrMap<V> {
    type V = Map<Seq<char>, V::V>;

    closed spec fn view(&self) -> Map<Seq<char>, V::V> {
        map_of_entries(self.entry_views())
    }
}

} // verus!
