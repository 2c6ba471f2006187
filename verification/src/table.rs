//! A map from text keys to values, in the order in which the keys came.
use vstd::prelude::*;

use crate::text::same;

verus! {

/// A map from text to values. No key occurs twice, and a key keeps its place
/// from the time it is first inserted until it is removed.
#[derive(Debug)]
pub struct Table<V> {
    entries: Vec<(String, V)>,
}

/// `keys` without `key`.
pub open spec fn without(keys: Seq<Seq<char>>, key: Seq<char>) -> Seq<Seq<char>> {
    keys.filter(|k: Seq<char>| k != key)
}

/// The place of the first entry with the key `key`, or the number of entries
/// where there is none.
spec fn place<V>(entries: Seq<(String, V)>, key: Seq<char>) -> int
    decreases entries.len(),
{
    if entries.len() == 0 {
        0
    } else if place(entries.drop_last(), key) < entries.len() - 1 {
        place(entries.drop_last(), key)
    } else if entries.last().0@ == key {
        entries.len() - 1
    } else {
        entries.len() as int
    }
}

proof fn lemma_place<V>(entries: Seq<(String, V)>, key: Seq<char>)
    ensures
        0 <= place(entries, key) <= entries.len(),
        place(entries, key) < entries.len() ==> entries[place(entries, key)].0@ == key,
        forall|i: int|
            0 <= i < place(entries, key) && i < entries.len() ==> (#[trigger] entries[i]).0@ != key,
    decreases entries.len(),
{
    if entries.len() > 0 {
        lemma_place(entries.drop_last(), key);
        let e = entries.drop_last();
        assert forall|i: int| 0 <= i < place(entries, key) && i < entries.len() implies (
        #[trigger] entries[i]).0@ != key by {
            if i < entries.len() - 1 {
                assert(e[i] == entries[i]);
            }
        }
        if place(e, key) < e.len() {
            assert(e[place(e, key)] == entries[place(e, key)]);
        }
    }
}

impl<V> Table<V> {
    /// The keys, in order.
    pub closed spec fn keys(&self) -> Seq<Seq<char>> {
        self.entries@.map_values(|e: (String, V)| e.0@)
    }

    #[verifier::type_invariant]
    spec fn keys_are_distinct(&self) -> bool {
        self.keys().no_duplicates()
    }
}

impl<V> Table<V> {
    /// The values, in the order of their keys.
    pub closed spec fn values(&self) -> Seq<V> {
        self.entries@.map_values(|e: (String, V)| e.1)
    }
}

impl<V: Clone> Clone for Table<V> {
    fn clone(&self) -> (r: Self)
        ensures
            r.keys() == self.keys(),
            r.values().len() == self.values().len(),
            forall|i: int|
                0 <= i < self.values().len() ==> cloned(
                    #[trigger] self.values()[i],
                    r.values()[i],
                ),
    {
        proof {
            use_type_invariant(self);
        }
        let mut entries: Vec<(String, V)> = Vec::new();
        let mut i: usize = 0;
        while i < self.entries.len()
            invariant
                i <= self.entries@.len(),
                entries@.len() == i,
                forall|j: int|
                    0 <= j < i ==> (#[trigger] entries@[j]).0@ == self.entries@[j].0@ && cloned(
                        self.entries@[j].1,
                        entries@[j].1,
                    ),
            decreases self.entries@.len() - i,
        {
            let entry: &(String, V) = &self.entries[i];
            entries.push((entry.0.clone(), entry.1.clone()));
            i = i + 1;
        }
        assert(entries@.map_values(|e: (String, V)| e.0@) =~= self.keys());
        Table { entries }
    }
}

impl<V: DeepView> DeepView for Table<V> {
    type V = Map<Seq<char>, V::V>;

    closed spec fn deep_view(&self) -> Map<Seq<char>, V::V> {
        Map::new(
            |k: Seq<char>| place(self.entries@, k) < self.entries@.len(),
            |k: Seq<char>| self.entries@[place(self.entries@, k)].1.deep_view(),
        )
    }
}

impl<V: DeepView> Table<V> {
    proof fn lemma_map(&self)
        ensures
            forall|k: Seq<char>| #[trigger]
                self.keys().contains(k) <==> self.deep_view().contains_key(k),
            forall|k: Seq<char>| #[trigger]
                self.deep_view().contains_key(k) ==> self.keys().contains(k),
            self.keys().no_duplicates() ==> forall|i: int|
                0 <= i < self.entries@.len() ==> self.deep_view().contains_key(
                    (#[trigger] self.entries@[i]).0@,
                ) && self.deep_view()[self.entries@[i].0@] == self.entries@[i].1.deep_view(),
    {
        let e = self.entries@;
        assert forall|k: Seq<char>|
            self.keys().contains(k) <==> #[trigger] self.deep_view().contains_key(k) by {
            lemma_place(e, k);
            if self.keys().contains(k) {
                let i = choose|i: int| 0 <= i < self.keys().len() && self.keys()[i] == k;
                assert(e[i].0@ == k);
            }
            if self.deep_view().contains_key(k) {
                assert(self.keys()[place(e, k)] == k);
            }
        }
        if self.keys().no_duplicates() {
            assert forall|i: int| 0 <= i < e.len() implies self.deep_view().contains_key(
                (#[trigger] e[i]).0@,
            ) && self.deep_view()[e[i].0@] == e[i].1.deep_view() by {
                lemma_place(e, e[i].0@);
                let p = place(e, e[i].0@);
                assert(self.keys()[i] == e[i].0@);
                if p < i {
                    assert(self.keys()[p] == self.keys()[i]);
                }
            }
        }
    }

    /// A table without entries.
    pub fn new() -> (r: Self)
        ensures
            r.deep_view() == Map::<Seq<char>, V::V>::empty(),
            r.keys() == Seq::<Seq<char>>::empty(),
    {
        Table { entries: Vec::new() }
    }

    /// The number of entries.
    pub fn len(&self) -> (r: usize)
        ensures
            r == self.keys().len(),
            r == self.deep_view().len(),
            self.deep_view().dom().finite(),
            self.keys().no_duplicates(),
            self.keys().to_set() == self.deep_view().dom(),
    {
        proof {
            use_type_invariant(self);
            self.lemma_map();
            assert(self.keys().to_set() =~= self.deep_view().dom());
            self.keys().unique_seq_to_set();
            vstd::seq_lib::seq_to_set_is_finite(self.keys());
        }
        self.entries.len()
    }

    /// Whether there is no entry.
    pub fn is_empty(&self) -> (r: bool)
        ensures
            r == (self.deep_view() == Map::<Seq<char>, V::V>::empty()),
            r == (self.keys().len() == 0),
    {
        proof {
            use_type_invariant(self);
            self.lemma_map();
        }
        if self.entries.len() == 0 {
            assert(self.deep_view() =~= Map::<Seq<char>, V::V>::empty());
            true
        } else {
            assert(self.keys().contains(self.keys()[0]));
            assert(self.deep_view().contains_key(self.keys()[0]));
            false
        }
    }

    /// The entry at the place `i`.
    pub fn entry(&self, i: usize) -> (r: (&String, &V))
        requires
            i < self.keys().len(),
        ensures
            r.0@ == self.keys()[i as int],
            self.deep_view().contains_key(r.0@),
            r.1.deep_view() == self.deep_view()[r.0@],
    {
        proof {
            use_type_invariant(self);
            self.lemma_map();
        }
        let e: &(String, V) = &self.entries[i];
        (&e.0, &e.1)
    }

    fn find(&self, key: &str) -> (r: usize)
        ensures
            r == place(self.entries@, key@),
    {
        let mut i: usize = 0;
        while i < self.entries.len()
            invariant
                i <= self.entries@.len(),
                forall|j: int| 0 <= j < i ==> (#[trigger] self.entries@[j]).0@ != key@,
            decreases self.entries@.len() - i,
        {
            if same(self.entries[i].0.as_str(), key) {
                proof {
                    lemma_place(self.entries@, key@);
                }
                return i;
            }
            i = i + 1;
        }
        proof {
            lemma_place(self.entries@, key@);
        }
        i
    }

    /// The value for `key`.
    pub fn get(&self, key: &str) -> (r: Option<&V>)
        ensures
            r is Some <==> self.deep_view().contains_key(key@),
            r matches Some(v) ==> v.deep_view() == self.deep_view()[key@],
    {
        let i: usize = self.find(key);
        proof {
            lemma_place(self.entries@, key@);
        }
        if i < self.entries.len() {
            Some(&self.entries[i].1)
        } else {
            None
        }
    }

    /// Whether there is a value for `key`.
    pub fn contains_key(&self, key: &str) -> (r: bool)
        ensures
            r == self.deep_view().contains_key(key@),
    {
        let i: usize = self.find(key);
        proof {
            lemma_place(self.entries@, key@);
        }
        i < self.entries.len()
    }

    /// Sets the value for `key`.
    pub fn insert(&mut self, key: String, value: V)
        ensures
            final(self).deep_view() == old(self).deep_view().insert(key@, value.deep_view()),
            final(self).keys() == (if old(self).deep_view().contains_key(key@) {
                old(self).keys()
            } else {
                old(self).keys().push(key@)
            }),
    {
        let i: usize = self.find(key.as_str());
        let ghost before = *self;
        let ghost k = key@;
        let ghost v = value.deep_view();
        proof {
            use_type_invariant(&*self);
            before.lemma_map();
            lemma_place(before.entries@, k);
        }
        let mut entries: Vec<(String, V)> = Vec::new();
        std::mem::swap(&mut entries, &mut self.entries);
        if i < entries.len() {
            entries.set(i, (key, value));
        } else {
            entries.push((key, value));
        }
        let ghost after = Table { entries };
        proof {
            assert forall|i: int, j: int|
                0 <= i < after.keys().len() && 0 <= j < after.keys().len() && i
                    != j implies after.keys()[i] != after.keys()[j] by {
                if i < before.keys().len() && j < before.keys().len() {
                    assert(before.keys()[i] == before.entries@[i].0@);
                    assert(before.keys()[j] == before.entries@[j].0@);
                }
            }
            after.lemma_map();
            assert forall|q: Seq<char>|
                #[trigger] after.deep_view().contains_key(q) <==> before.deep_view().insert(
                    k,
                    v,
                ).contains_key(q) by {
                lemma_place(before.entries@, q);
                lemma_place(after.entries@, q);
                if q == k {
                    assert(after.entries@[i as int].0@ == k);
                } else {
                    if place(before.entries@, q) < before.entries@.len() {
                        assert(after.entries@[place(before.entries@, q)].0@ == q);
                    }
                    if place(after.entries@, q) < after.entries@.len() {
                        assert(before.entries@[place(after.entries@, q)].0@ == q);
                    }
                }
            }
            assert forall|q: Seq<char>| after.deep_view().contains_key(q) implies #[trigger]
            after.deep_view()[q] == before.deep_view().insert(k, v)[q] by {
                lemma_place(before.entries@, q);
                lemma_place(after.entries@, q);
                let p = place(after.entries@, q);
                if q == k {
                    assert(after.entries@[i as int].0@ == k);
                    assert(after.keys()[i as int] == after.keys()[p]);
                } else {
                    assert(before.entries@[p].0@ == q);
                    assert(before.keys()[p] == before.keys()[place(before.entries@, q)]);
                }
            }
            assert(after.deep_view() =~= before.deep_view().insert(k, v));
            assert(after.keys() =~= (if before.deep_view().contains_key(k) {
                before.keys()
            } else {
                before.keys().push(k)
            }));
        }
        self.entries = entries;
    }

    /// Takes the value for `key` out.
    pub fn remove(&mut self, key: &str) -> (r: Option<V>)
        ensures
            final(self).deep_view() == old(self).deep_view().remove(key@),
            final(self).keys() == without(old(self).keys(), key@),
            r is Some <==> old(self).deep_view().contains_key(key@),
            r matches Some(v) ==> v.deep_view() == old(self).deep_view()[key@],
    {
        let i: usize = self.find(key);
        let ghost before = *self;
        let ghost k = key@;
        proof {
            use_type_invariant(&*self);
            before.lemma_map();
            lemma_place(before.entries@, k);
        }
        let mut entries: Vec<(String, V)> = Vec::new();
        std::mem::swap(&mut entries, &mut self.entries);
        let mut taken: Option<V> = None;
        if i < entries.len() {
            let e: (String, V) = entries.remove(i);
            taken = Some(e.1);
        }
        let ghost after = Table { entries };
        proof {
            if i < before.entries@.len() {
                assert(after.entries@ == before.entries@.remove(i as int));
                assert(after.keys() =~= before.keys().remove(i as int));
                lemma_filter_one(before.keys(), i as int, k);
            } else {
                assert(after.entries@ == before.entries@);
                assert(!before.keys().contains(k));
                lemma_filter_none(before.keys(), k);
            }
            assert(after.keys() == without(before.keys(), k));
            after.lemma_map();
            assert forall|q: Seq<char>| #[trigger]
                after.deep_view().contains_key(q) <==> before.deep_view().remove(k).contains_key(
                    q,
                ) by {
                lemma_filter_keeps(before.keys(), k, q);
            }
            assert forall|q: Seq<char>| after.deep_view().contains_key(q) implies #[trigger]
            after.deep_view()[q] == before.deep_view().remove(k)[q] by {
                lemma_place(after.entries@, q);
                let a = place(after.entries@, q);
                if i < before.entries@.len() && a >= i {
                    assert(before.entries@[a + 1] == after.entries@[a]);
                } else {
                    assert(before.entries@[a] == after.entries@[a]);
                }
            }
            assert(after.deep_view() =~= before.deep_view().remove(k));
        }
        self.entries = entries;
        taken
    }
}

proof fn lemma_filter_none(s: Seq<Seq<char>>, k: Seq<char>)
    requires
        !s.contains(k),
    ensures
        without(s, k) == s,
    decreases s.len(),
{
    reveal(Seq::filter);
    if s.len() > 0 {
        let t = s.drop_last();
        assert(!t.contains(k)) by {
            if t.contains(k) {
                let i = choose|i: int| 0 <= i < t.len() && t[i] == k;
                assert(s[i] == k);
            }
        }
        lemma_filter_none(t, k);
        assert(s.last() != k);
        assert(t.push(s.last()) =~= s);
    }
}

proof fn lemma_filter_one(s: Seq<Seq<char>>, i: int, k: Seq<char>)
    requires
        0 <= i < s.len(),
        s[i] == k,
        s.no_duplicates(),
    ensures
        without(s, k) == s.remove(i),
        s.remove(i).no_duplicates(),
    decreases s.len(),
{
    reveal(Seq::filter);
    let t = s.drop_last();
    if i == s.len() - 1 {
        lemma_filter_none(t, k);
        assert(s.remove(i) =~= t);
    } else {
        lemma_filter_one(t, i, k);
        assert(s.last() != k);
        assert(s.remove(i) =~= t.remove(i).push(s.last()));
    }
}

proof fn lemma_filter_keeps(s: Seq<Seq<char>>, k: Seq<char>, q: Seq<char>)
    ensures
        without(s, k).contains(q) <==> s.contains(q) && q != k,
    decreases s.len(),
{
    reveal(Seq::filter);
    if s.len() > 0 {
        let t = s.drop_last();
        lemma_filter_keeps(t, k, q);
        assert(s =~= t.push(s.last()));
        if s.contains(q) {
            let i = choose|i: int| 0 <= i < s.len() && s[i] == q;
            if i < t.len() {
                assert(t[i] == q);
            }
        }
        if t.contains(q) {
            let i = choose|i: int| 0 <= i < t.len() && t[i] == q;
            assert(s[i] == q);
        }
        let g = without(t, k);
        if s.last() != k {
            let h = g.push(s.last());
            assert(without(s, k) == h);
            if g.contains(q) {
                let i = choose|i: int| 0 <= i < g.len() && g[i] == q;
                assert(h[i] == q);
            }
            if h.contains(q) {
                let i = choose|i: int| 0 <= i < h.len() && h[i] == q;
                if i < g.len() {
                    assert(g[i] == q);
                }
            }
            assert(h[h.len() - 1] == s.last());
        }
    }
}

/// What is left of keys without one of them is every other key, in order.
pub proof fn law_other_keys_stay_in_order(keys: Seq<Seq<char>>, last: Seq<char>, key: Seq<char>)
    ensures
        without(Seq::empty(), key) == Seq::<Seq<char>>::empty(),
        last == key ==> without(keys.push(last), key) == without(keys, key),
        last != key ==> without(keys.push(last), key) == without(keys, key).push(last),
{
    reveal(Seq::filter);
    assert(keys.push(last).drop_last() =~= keys);
    assert(keys.push(last).last() == last);
}

/// A value that is written for a key is read for it, and no other key is touched:
/// what was read for that before is read after.
pub proof fn law_values_are_read_as_written<V: DeepView>(
    table: &mut Table<V>,
    after: &Table<V>,
    key: String,
    value: V,
    unit: (),
    other: &str,
    read: Option<&V>,
)
    requires
        call_ensures(Table::<V>::insert, (table, key, value), unit),
        *after == *final(table),
        call_ensures(Table::<V>::get, (after, other), read),
    ensures
        other@ == key@ ==> read is Some && read->0.deep_view() == value.deep_view(),
        other@ != key@ ==> (read is Some <==> old(table).deep_view().contains_key(other@)),
        other@ != key@ && read is Some ==> read->0.deep_view() == old(table).deep_view()[other@],
{
}

/// A key that is taken out gives its value and is not found any more; every other
/// key is read as before.
pub proof fn law_keys_are_taken_out<V: DeepView>(
    table: &mut Table<V>,
    after: &Table<V>,
    key: &str,
    taken: Option<V>,
    other: &str,
    read: Option<&V>,
    found: bool,
)
    requires
        call_ensures(Table::<V>::remove, (table, key), taken),
        *after == *final(table),
        call_ensures(Table::<V>::get, (after, other), read),
        call_ensures(Table::<V>::contains_key, (after, other), found),
    ensures
        found <==> read is Some,
        other@ == key@ ==> read is None,
        other@ != key@ ==> (read is Some <==> old(table).deep_view().contains_key(other@)),
        other@ != key@ && read is Some ==> read->0.deep_view() == old(table).deep_view()[other@],
        taken is Some <==> old(table).deep_view().contains_key(key@),
        taken is Some ==> taken->0.deep_view() == old(table).deep_view()[key@],
{
}

/// A table starts without keys, has as many entries as keys, and gives each entry
/// with the value for its key.
pub proof fn law_tables_give_their_entries<V: DeepView>(
    empty: Table<V>,
    table: &Table<V>,
    n: usize,
    none: bool,
    i: usize,
    entry: (&String, &V),
)
    requires
        call_ensures(Table::<V>::new, (), empty),
        call_ensures(Table::<V>::len, (table,), n),
        call_ensures(Table::<V>::is_empty, (table,), none),
        i < table.keys().len(),
        call_ensures(Table::<V>::entry, (table, i), entry),
    ensures
        empty.keys().len() == 0,
        forall|key: Seq<char>| !(#[trigger] empty.deep_view().contains_key(key)),
        n == table.keys().len(),
        none <==> n == 0,
        entry.0@ == table.keys()[i as int],
        entry.1.deep_view() == table.deep_view()[entry.0@],
{
}

}
