//! A small keyed table: a list of entries with distinct keys, modelled as a `Map`.
use vstd::prelude::*;

use crate::text::str_eq;

verus! {

/// A type whose values can be told apart by their views.
pub trait Key: View + Sized {
    /// Tells whether two keys have the same view.
    fn same(&self, other: &Self) -> (r: bool)
        ensures
            r == (self@ == other@),
    ;
}

impl Key for String {
    fn same(&self, other: &Self) -> (r: bool) {
        str_eq(self.as_str(), other.as_str())
    }
}

/// The part of a map whose entries are accepted.
pub open spec fn kept<A, B>(m: Map<A, B>, accepts: spec_fn(A, B) -> bool) -> Map<A, B> {
    Map::new(|k: A| m.dom().contains(k) && accepts(k, m[k]), |k: A| m[k])
}

/// The entries have distinct keys.
pub open spec fn distinct_keys<K: View, V>(s: Seq<(K, V)>) -> bool {
    forall|i: int, j: int| 0 <= i < j < s.len() ==> (#[trigger] s[i]).0@ != (#[trigger] s[j]).0@
}

/// Entry `i` has the key `k`.
pub open spec fn key_at<K: View, V>(s: Seq<(K, V)>, i: int, k: K::V) -> bool {
    0 <= i < s.len() && s[i].0@ == k
}

/// The map that a list of entries with distinct keys stands for.
pub open spec fn entries_map<K: View, V>(s: Seq<(K, V)>) -> Map<K::V, V> {
    Map::new(
        |k: K::V| exists|i: int| key_at(s, i, k),
        |k: K::V| s[choose|i: int| key_at(s, i, k)].1,
    )
}

proof fn lemma_entry<K: View, V>(s: Seq<(K, V)>, i: int)
    requires
        distinct_keys(s),
        0 <= i < s.len(),
    ensures
        entries_map(s).contains_key(s[i].0@),
        entries_map(s)[s[i].0@] == s[i].1,
{
    let k = s[i].0@;
    assert(key_at(s, i, k));
    let j = choose|j: int| key_at(s, j, k);
    assert(key_at(s, j, k));
    assert(i == j) by {
        if i < j {
            assert(s[i].0@ != s[j].0@);
        } else if j < i {
            assert(s[j].0@ != s[i].0@);
        }
    }
}

proof fn lemma_absent<K: View, V>(s: Seq<(K, V)>, k: K::V)
    requires
        forall|i: int| 0 <= i < s.len() ==> (#[trigger] s[i]).0@ != k,
    ensures
        !entries_map(s).contains_key(k),
{
    if entries_map(s).contains_key(k) {
        let i = choose|i: int| key_at(s, i, k);
        assert(key_at(s, i, k));
        assert(s[i].0@ != k);
    }
}

/// The map has as many keys as there are entries.
proof fn lemma_entries_len<K: View, V>(s: Seq<(K, V)>)
    requires
        distinct_keys(s),
    ensures
        entries_map(s).dom().finite(),
        entries_map(s).len() == s.len(),
{
    let keys = s.map_values(|e: (K, V)| e.0@);
    assert(keys.no_duplicates()) by {
        assert forall|i: int, j: int|
            0 <= i < keys.len() && 0 <= j < keys.len() && i != j implies keys[i] != keys[j] by {
            if i < j {
                assert(s[i].0@ != s[j].0@);
            } else {
                assert(s[j].0@ != s[i].0@);
            }
        }
    }
    keys.unique_seq_to_set();
    assert(entries_map(s).dom() =~= keys.to_set()) by {
        assert forall|k: K::V| entries_map(s).dom().contains(k) implies keys.to_set().contains(
            k,
        ) by {
            let i = choose|i: int| key_at(s, i, k);
            assert(key_at(s, i, k));
            assert(keys[i] == k);
        }
        assert forall|k: K::V| keys.to_set().contains(k) implies entries_map(s).dom().contains(
            k,
        ) by {
            let i = choose|i: int| 0 <= i < keys.len() && keys[i] == k;
            assert(key_at(s, i, k));
        }
    }
}

/// A table of values under distinct keys.
#[derive(Debug)]
pub struct Table<K: Key, V> {
    entries: Vec<(K, V)>,
}

impl<K: Key, V> Table<K, V> {
    /// The entries as a sequence.
    pub closed spec fn entries(&self) -> Seq<(K, V)> {
        self.entries@
    }

    /// The keys are distinct.
    pub closed spec fn wf(&self) -> bool {
        distinct_keys(self.entries@)
    }

    /// The value under each key.
    pub closed spec fn map(&self) -> Map<K::V, V> {
        entries_map(self.entries@)
    }

    /// An entry of the list is an entry of the map.
    pub proof fn entry_in_map(&self, i: int)
        requires
            self.wf(),
            0 <= i < self.entries().len(),
        ensures
            self.map().contains_key(self.entries()[i].0@),
            self.map()[self.entries()[i].0@] == self.entries()[i].1,
    {
        lemma_entry(self.entries@, i);
    }

    /// An entry of the map is an entry of the list.
    pub proof fn map_in_entries(&self, k: K::V) -> (i: int)
        requires
            self.wf(),
            self.map().contains_key(k),
        ensures
            0 <= i < self.entries().len(),
            self.entries()[i].0@ == k,
            self.map()[k] == self.entries()[i].1,
    {
        let i = choose|i: int| key_at(self.entries@, i, k);
        assert(key_at(self.entries@, i, k));
        lemma_entry(self.entries@, i);
        i
    }

    /// Two entries have different keys.
    pub proof fn entries_differ(&self, i: int, j: int)
        requires
            self.wf(),
            0 <= i < self.entries().len(),
            0 <= j < self.entries().len(),
            i != j,
        ensures
            self.entries()[i].0@ != self.entries()[j].0@,
    {
        if i < j {
            assert(self.entries@[i].0@ != self.entries@[j].0@);
        } else {
            assert(self.entries@[j].0@ != self.entries@[i].0@);
        }
    }

    /// The list is as long as the map is large.
    pub proof fn map_size(&self)
        requires
            self.wf(),
        ensures
            self.map().dom().finite(),
            self.map().len() == self.entries().len(),
    {
        lemma_entries_len(self.entries@);
    }

    /// An empty table.
    pub fn new() -> (r: Self)
        ensures
            r.wf(),
            r.map() == Map::<K::V, V>::empty(),
    {
        let r = Table { entries: Vec::new() };
        proof {
            assert(r.map() =~= Map::<K::V, V>::empty());
        }
        r
    }

    /// The number of entries.
    pub fn len(&self) -> (r: usize)
        requires
            self.wf(),
        ensures
            r == self.map().len(),
            r == self.entries().len(),
            self.map().dom().finite(),
    {
        proof {
            self.map_size();
        }
        self.entries.len()
    }

    /// The entry at a position of the list.
    pub fn at(&self, i: usize) -> (r: (&K, &V))
        requires
            i < self.entries().len(),
        ensures
            *r.0 == self.entries()[i as int].0,
            *r.1 == self.entries()[i as int].1,
    {
        let e = &self.entries[i];
        (&e.0, &e.1)
    }

    /// The position of a key.
    pub fn find(&self, key: &K) -> (r: Option<usize>)
        requires
            self.wf(),
        ensures
            match r {
                Some(i) => i < self.entries().len() && self.entries()[i as int].0@ == key@
                    && self.map().contains_key(key@) && self.map()[key@]
                    == self.entries()[i as int].1,
                None => !self.map().contains_key(key@),
            },
    {
        let mut i: usize = 0;
        while i < self.entries.len()
            invariant
                self.wf(),
                i <= self.entries@.len(),
                forall|k: int| 0 <= k < i ==> (#[trigger] self.entries@[k]).0@ != key@,
            decreases self.entries@.len() - i,
        {
            if self.entries[i].0.same(key) {
                proof {
                    lemma_entry(self.entries@, i as int);
                }
                return Some(i);
            }
            i = i + 1;
        }
        proof {
            lemma_absent(self.entries@, key@);
        }
        None
    }

    /// The value under a key.
    pub fn get(&self, key: &K) -> (r: Option<&V>)
        requires
            self.wf(),
        ensures
            match r {
                Some(v) => self.map().contains_key(key@) && *v == self.map()[key@],
                None => !self.map().contains_key(key@),
            },
    {
        match self.find(key) {
            Some(i) => Some(&self.entries[i].1),
            None => None,
        }
    }

    /// Puts a value under a key, in place of the one that was there.
    pub fn insert(&mut self, key: K, value: V)
        requires
            old(self).wf(),
        ensures
            final(self).wf(),
            final(self).map() == old(self).map().insert(key@, value),
    {
        let ghost before = self.entries@;
        let found = self.find(&key);
        match found {
            Some(i) => {
                self.entries.set(i, (key, value));
                proof {
                    let after = self.entries@;
                    assert(distinct_keys(after)) by {
                        assert forall|a: int, b: int| 0 <= a < b < after.len() implies (
                        #[trigger] after[a]).0@ != (#[trigger] after[b]).0@ by {
                            assert(before[a].0@ != before[b].0@);
                        }
                    }
                    lemma_same_map(before, after, key@, value, i as int);
                }
            },
            None => {
                proof {
                    assert forall|a: int| 0 <= a < before.len() implies (#[trigger] before[a]).0@
                        != key@ by {
                        lemma_entry(before, a);
                    }
                }
                self.entries.push((key, value));
                proof {
                    lemma_pushed_map(before, key, value);
                }
            },
        }
    }

    /// Removes the entry at a position of the list.
    pub fn remove_at(&mut self, i: usize)
        requires
            old(self).wf(),
            i < old(self).entries().len(),
        ensures
            final(self).wf(),
            final(self).map() == old(self).map().remove(old(self).entries()[i as int].0@),
            final(self).entries() == old(self).entries().remove(i as int),
    {
        let ghost before = self.entries@;
        self.entries.remove(i);
        proof {
            lemma_removed_map(before, i as int);
        }
    }

    /// Keeps the entries that `keep` accepts.
    pub fn retain<F: Fn(&K, &V) -> bool>(
        &mut self,
        keep: F,
        Ghost(accepts): Ghost<spec_fn(K::V, V) -> bool>,
    )
        requires
            old(self).wf(),
            forall|k: &K, v: &V| call_requires(keep, (k, v)),
            forall|k: &K, v: &V, b: bool| #[trigger]
                call_ensures(keep, (k, v), b) ==> b == accepts(k@, *v),
        ensures
            final(self).wf(),
            final(self).map() == kept(old(self).map(), accepts),
    {
        let ghost before = self.map();
        let mut i: usize = 0;
        while i < self.entries.len()
            invariant
                self.wf(),
                i <= self.entries@.len(),
                forall|k: &K, v: &V| call_requires(keep, (k, v)),
                forall|k: &K, v: &V, b: bool| #[trigger]
                    call_ensures(keep, (k, v), b) ==> b == accepts(k@, *v),
                forall|j: int|
                    0 <= j < i ==> accepts(
                        (#[trigger] self.entries@[j]).0@,
                        self.entries@[j].1,
                    ),
                forall|k: K::V| #[trigger]
                    self.map().dom().contains(k) ==> before.dom().contains(k) && before[k]
                        == self.map()[k],
                forall|k: K::V| #[trigger]
                    before.dom().contains(k) && accepts(k, before[k]) ==> self.map().dom().contains(
                        k,
                    ),
            decreases self.entries@.len() - i,
        {
            proof {
                lemma_entry(self.entries@, i as int);
            }
            let keeps = keep(&self.entries[i].0, &self.entries[i].1);
            if keeps {
                i = i + 1;
            } else {
                let ghost m = self.map();
                let ghost list = self.entries@;
                self.remove_at(i);
                proof {
                    assert forall|j: int| 0 <= j < i implies accepts(
                        (#[trigger] self.entries@[j]).0@,
                        self.entries@[j].1,
                    ) by {
                        assert(self.entries@[j] == list[j]);
                    }
                    assert forall|k: K::V| #[trigger] self.map().dom().contains(
                        k,
                    ) implies before.dom().contains(k) && before[k] == self.map()[k] by {
                        assert(m.dom().contains(k));
                    }
                }
            }
        }
        proof {
            let m = self.map();
            let n = kept(before, accepts);
            assert forall|k: K::V| #[trigger] m.dom().contains(k) implies n.dom().contains(k)
                && n[k] == m[k] by {
                let j = self.map_in_entries(k);
                assert(accepts(self.entries@[j].0@, self.entries@[j].1));
            }
            assert(m.dom() =~= n.dom());
            assert(m =~= n);
        }
    }

    /// Removes a key.
    pub fn remove(&mut self, key: &K)
        requires
            old(self).wf(),
        ensures
            final(self).wf(),
            final(self).map() == old(self).map().remove(key@),
    {
        match self.find(key) {
            Some(i) => {
                self.remove_at(i);
            },
            None => {
                proof {
                    assert(self.map().remove(key@) =~= self.map());
                }
            },
        }
    }
}

proof fn lemma_same_map<K: View, V>(
    before: Seq<(K, V)>,
    after: Seq<(K, V)>,
    k: K::V,
    value: V,
    i: int,
)
    requires
        distinct_keys(before),
        distinct_keys(after),
        0 <= i < before.len(),
        before[i].0@ == k,
        after.len() == before.len(),
        after[i].0@ == k,
        after[i].1 == value,
        forall|j: int| 0 <= j < before.len() && j != i ==> after[j] == before[j],
    ensures
        entries_map(after) == entries_map(before).insert(k, value),
{
    let m = entries_map(before).insert(k, value);
    let n = entries_map(after);
    assert forall|q: K::V| #[trigger] m.dom().contains(q) implies n.dom().contains(q) && n[q]
        == m[q] by {
        if q == k {
            lemma_entry(after, i);
        } else {
            let j = choose|j: int| key_at(before, j, q);
            assert(key_at(before, j, q));
            lemma_entry(before, j);
            lemma_entry(after, j);
        }
    }
    assert forall|q: K::V| #[trigger] n.dom().contains(q) implies m.dom().contains(q) by {
        let j = choose|j: int| key_at(after, j, q);
        assert(key_at(after, j, q));
        lemma_entry(before, j);
    }
    assert(n.dom() =~= m.dom());
    assert(n =~= m);
}

proof fn lemma_pushed_map<K: View, V>(before: Seq<(K, V)>, key: K, value: V)
    requires
        distinct_keys(before),
        forall|a: int| 0 <= a < before.len() ==> (#[trigger] before[a]).0@ != key@,
    ensures
        distinct_keys(before.push((key, value))),
        entries_map(before.push((key, value))) == entries_map(before).insert(key@, value),
{
    let after = before.push((key, value));
    let m = entries_map(before).insert(key@, value);
    let n = entries_map(after);
    assert forall|q: K::V| #[trigger] m.dom().contains(q) implies n.dom().contains(q) && n[q]
        == m[q] by {
        if q == key@ {
            lemma_entry(after, before.len() as int);
        } else {
            let j = choose|j: int| key_at(before, j, q);
            assert(key_at(before, j, q));
            lemma_entry(before, j);
            lemma_entry(after, j);
            assert(after[j] == before[j]);
        }
    }
    assert forall|q: K::V| #[trigger] n.dom().contains(q) implies m.dom().contains(q) by {
        let j = choose|j: int| key_at(after, j, q);
        assert(key_at(after, j, q));
        if j < before.len() {
            lemma_entry(before, j);
        }
    }
    assert(n.dom() =~= m.dom());
    assert(n =~= m);
}

proof fn lemma_removed_map<K: View, V>(before: Seq<(K, V)>, i: int)
    requires
        distinct_keys(before),
        0 <= i < before.len(),
    ensures
        distinct_keys(before.remove(i)),
        entries_map(before.remove(i)) == entries_map(before).remove(before[i].0@),
{
    let after = before.remove(i);
    let k = before[i].0@;
    let m = entries_map(before).remove(k);
    let n = entries_map(after);
    assert forall|a: int, b: int| 0 <= a < b < after.len() implies (#[trigger] after[a]).0@ != (
    #[trigger] after[b]).0@ by {
        let a2 = if a < i {
            a
        } else {
            a + 1
        };
        let b2 = if b < i {
            b
        } else {
            b + 1
        };
        assert(before[a2].0@ != before[b2].0@);
    }
    assert forall|q: K::V| #[trigger] m.dom().contains(q) implies n.dom().contains(q) && n[q]
        == m[q] by {
        let j = choose|j: int| key_at(before, j, q);
        assert(key_at(before, j, q));
        lemma_entry(before, j);
        let j2 = if j < i {
            j
        } else {
            j - 1
        };
        assert(after[j2] == before[j]);
        lemma_entry(after, j2);
    }
    assert forall|q: K::V| #[trigger] n.dom().contains(q) implies m.dom().contains(q) by {
        let j = choose|j: int| key_at(after, j, q);
        assert(key_at(after, j, q));
        let j2 = if j < i {
            j
        } else {
            j + 1
        };
        lemma_entry(before, j2);
        if j2 < i {
            assert(before[j2].0@ != before[i].0@);
        } else {
            assert(before[i].0@ != before[j2].0@);
        }
    }
    assert(n.dom() =~= m.dom());
    assert(n =~= m);
}

} // verus!
