//! An ordered map: entries kept in strictly increasing key order, so that
//! walking them gives the keys in order, as a B-tree map does.
use vstd::prelude::*;
use crate::keys::{MapKey, Duplicate};

verus! {

#[derive(Debug)]
pub struct SortedMap<K, T> {
    entries: Vec<(K, T)>,
}

/// The index of `k` in `keys`, where it occurs.
pub open spec fn key_position<A>(keys: Seq<A>, k: A) -> int {
    choose|i: int| 0 <= i < keys.len() && keys[i] == k
}

impl<K: MapKey, T> SortedMap<K, T> {
    /// The keys, in the order in which they are stored.
    pub closed spec fn keys(self) -> Seq<K::V> {
        self.entries@.map_values(|e: (K, T)| e.0@)
    }

    /// The values, each at the position of its key.
    pub closed spec fn values(self) -> Seq<T> {
        self.entries@.map_values(|e: (K, T)| e.1)
    }

    /// Keys are strictly increasing (hence distinct), one value per key.
    pub open spec fn wf(self) -> bool {
        &&& self.keys().len() == self.values().len()
        &&& forall|i: int, j: int|
            0 <= i < j < self.keys().len() ==> K::key_lt(#[trigger] self.keys()[i], #[trigger] self.keys()[j])
    }

    /// The map from each key to its value.
    pub open spec fn map(self) -> Map<K::V, T> {
        Map::new(
            |k: K::V| self.keys().contains(k),
            |k: K::V| self.values()[key_position(self.keys(), k)],
        )
    }

    proof fn lemma_position(self, i: int)
        requires
            self.wf(),
            0 <= i < self.keys().len(),
        ensures
            key_position(self.keys(), self.keys()[i]) == i,
    {
        let k = self.keys()[i];
        assert(self.keys()[i] == k);
        let p = key_position(self.keys(), k);
        if p < i {
            K::lemma_key_lt_irreflexive(k);
        } else if i < p {
            K::lemma_key_lt_irreflexive(k);
        }
    }

    /// The map holds exactly the stored pairs.
    pub proof fn lemma_map_entries(self)
        requires
            self.wf(),
        ensures
            forall|i: int|
                0 <= i < self.keys().len() ==> self.map().contains_key(#[trigger] self.keys()[i])
                    && self.map()[self.keys()[i]] == self.values()[i],
            forall|k: K::V|
                #[trigger] self.map().contains_key(k) ==> exists|i: int|
                    0 <= i < self.keys().len() && self.keys()[i] == k,
            self.map().dom().finite(),
            self.map().len() == self.keys().len(),
    {
        assert forall|i: int| 0 <= i < self.keys().len() implies self.map().contains_key(
            #[trigger] self.keys()[i],
        ) && self.map()[self.keys()[i]] == self.values()[i] by {
            self.lemma_position(i);
        }
        self.lemma_keys_distinct();
        self.keys().unique_seq_to_set();
        assert(self.map().dom() =~= self.keys().to_set());
    }

    proof fn lemma_keys_distinct(self)
        requires
            self.wf(),
        ensures
            self.keys().no_duplicates(),
    {
        assert forall|i: int, j: int|
            0 <= i < self.keys().len() && 0 <= j < self.keys().len() && i != j implies self.keys()[i]
            != self.keys()[j] by {
            if i < j {
                assert(K::key_lt(self.keys()[i], self.keys()[j]));
                if self.keys()[i] == self.keys()[j] {
                    K::lemma_key_lt_irreflexive(self.keys()[i]);
                }
            } else {
                assert(K::key_lt(self.keys()[j], self.keys()[i]));
                if self.keys()[i] == self.keys()[j] {
                    K::lemma_key_lt_irreflexive(self.keys()[i]);
                }
            }
        }
    }

    /// Two strictly increasing key sequences with the same keys are equal.
    proof fn lemma_sorted_keys_equal(s1: Seq<K::V>, s2: Seq<K::V>)
        requires
            forall|i: int, j: int| 0 <= i < j < s1.len() ==> K::key_lt(#[trigger] s1[i], #[trigger] s1[j]),
            forall|i: int, j: int| 0 <= i < j < s2.len() ==> K::key_lt(#[trigger] s2[i], #[trigger] s2[j]),
            forall|k: K::V| s1.contains(k) <==> s2.contains(k),
        ensures
            s1 == s2,
        decreases s1.len() + s2.len(),
    {
        if s1.len() == 0 {
            if s2.len() > 0 {
                assert(s2.contains(s2[0]));
            }
            assert(s1 =~= s2);
        } else if s2.len() == 0 {
            assert(s1.contains(s1[0]));
        } else {
            let l1 = s1.last();
            let l2 = s2.last();
            assert(s1.contains(l1));
            assert(s2.contains(l2));
            if l1 != l2 {
                let i = choose|i: int| 0 <= i < s2.len() && s2[i] == l1;
                let j = choose|j: int| 0 <= j < s1.len() && s1[j] == l2;
                assert(K::key_lt(l1, l2));
                assert(K::key_lt(l2, l1));
                K::lemma_key_lt_transitive(l1, l2, l1);
                K::lemma_key_lt_irreflexive(l1);
            }
            let d1 = s1.drop_last();
            let d2 = s2.drop_last();
            assert forall|k: K::V| d1.contains(k) <==> d2.contains(k) by {
                if d1.contains(k) {
                    let i = choose|i: int| 0 <= i < d1.len() && d1[i] == k;
                    assert(s1[i] == k);
                    assert(K::key_lt(s1[i], l1));
                    K::lemma_key_lt_irreflexive(l1);
                    assert(s2.contains(k));
                    let j = choose|j: int| 0 <= j < s2.len() && s2[j] == k;
                    assert(j != s2.len() - 1);
                    assert(d2[j] == k);
                }
                if d2.contains(k) {
                    let i = choose|i: int| 0 <= i < d2.len() && d2[i] == k;
                    assert(s2[i] == k);
                    assert(K::key_lt(s2[i], l2));
                    K::lemma_key_lt_irreflexive(l2);
                    assert(s1.contains(k));
                    let j = choose|j: int| 0 <= j < s1.len() && s1[j] == k;
                    assert(j != s1.len() - 1);
                    assert(d1[j] == k);
                }
            }
            Self::lemma_sorted_keys_equal(d1, d2);
            assert(s1 =~= d1.push(l1));
            assert(s2 =~= d2.push(l2));
        }
    }

    /// A well-formed map is determined by its contents: two maps holding the
    /// same pairs list the same keys and values in the same order.
    pub proof fn lemma_same_map_same_listing(a: Self, b: Self)
        requires
            a.wf(),
            b.wf(),
            a.map() == b.map(),
        ensures
            a.keys() == b.keys(),
            a.values() == b.values(),
    {
        a.lemma_map_entries();
        b.lemma_map_entries();
        assert forall|k: K::V| a.keys().contains(k) <==> b.keys().contains(k) by {
            if a.keys().contains(k) {
                assert(a.map().contains_key(k));
            }
            if b.keys().contains(k) {
                assert(b.map().contains_key(k));
            }
        }
        Self::lemma_sorted_keys_equal(a.keys(), b.keys());
        assert forall|i: int| 0 <= i < a.values().len() implies a.values()[i] == b.values()[i] by {
            assert(a.map()[a.keys()[i]] == a.values()[i]);
            assert(b.map()[b.keys()[i]] == b.values()[i]);
        }
        assert(a.values() =~= b.values());
    }

    /// An empty map.
    pub fn new() -> (m: Self)
        ensures
            m.wf(),
            m.keys() == Seq::<K::V>::empty(),
            m.values() == Seq::<T>::empty(),
            m.map() == Map::<K::V, T>::empty(),
    {
        let m = SortedMap { entries: Vec::new() };
        assert(m.keys() =~= Seq::<K::V>::empty());
        assert(m.values() =~= Seq::<T>::empty());
        assert(m.map() =~= Map::<K::V, T>::empty());
        m
    }

    /// The number of entries.
    pub fn len(&self) -> (n: usize)
        ensures
            n == self.keys().len(),
    {
        self.entries.len()
    }

    /// The key stored at position `i`.
    pub fn key_at(&self, i: usize) -> (k: &K)
        requires
            i < self.keys().len(),
        ensures
            k@ == self.keys()[i as int],
    {
        &self.entries[i].0
    }

    /// The value stored at position `i`.
    pub fn value_at(&self, i: usize) -> (v: &T)
        requires
            self.wf(),
            i < self.keys().len(),
        ensures
            *v == self.values()[i as int],
    {
        &self.entries[i].1
    }

    /// Where `k` is, or where it would go: `(true, i)` if `keys[i] == k`;
    /// `(false, i)` if every key before `i` is smaller than `k` and every key
    /// from `i` on is greater.
    fn find(&self, k: &K) -> (res: (bool, usize))
        requires
            self.wf(),
        ensures
            res.1 <= self.keys().len(),
            res.0 ==> res.1 < self.keys().len() && self.keys()[res.1 as int] == k@,
            !res.0 ==> (forall|i: int| 0 <= i < res.1 ==> K::key_lt(#[trigger] self.keys()[i], k@)),
            !res.0 ==> (forall|i: int|
                res.1 <= i < self.keys().len() ==> K::key_lt(k@, #[trigger] self.keys()[i])),
            res.0 <==> self.keys().contains(k@),
    {
        let n = self.entries.len();
        let mut i: usize = 0;
        while i < n && self.entries[i].0.lt_key(k)
            invariant
                self.wf(),
                n == self.keys().len(),
                i <= n,
                forall|j: int| 0 <= j < i ==> K::key_lt(#[trigger] self.keys()[j], k@),
            decreases n - i,
        {
            proof {
                assert(self.keys()[i as int] == self.entries@[i as int].0@);
            }
            i = i + 1;
        }
        proof {
            if i < n {
                assert(self.keys()[i as int] == self.entries@[i as int].0@);
            }
        }
        if i < n && self.entries[i].0.eq_key(k) {
            proof {
                assert(self.keys()[i as int] == self.entries@[i as int].0@);
            }
            (true, i)
        } else {
            proof {
                if i < n {
                    assert(self.keys()[i as int] == self.entries@[i as int].0@);
                    K::lemma_key_lt_total(self.keys()[i as int], k@);
                    assert forall|j: int| i <= j < self.keys().len() implies K::key_lt(
                        k@,
                        #[trigger] self.keys()[j],
                    ) by {
                        if j > i {
                            K::lemma_key_lt_transitive(k@, self.keys()[i as int], self.keys()[j]);
                        }
                    }
                }
                if self.keys().contains(k@) {
                    let p = choose|p: int| 0 <= p < self.keys().len() && self.keys()[p] == k@;
                    K::lemma_key_lt_irreflexive(k@);
                    if p < i {
                        assert(K::key_lt(self.keys()[p], k@));
                    } else {
                        assert(K::key_lt(k@, self.keys()[p]));
                    }
                }
            }
            (false, i)
        }
    }

    /// Whether `k` is a key.
    pub fn contains_key(&self, k: &K) -> (r: bool)
        requires
            self.wf(),
        ensures
            r == self.map().contains_key(k@),
    {
        let (found, _) = self.find(k);
        found
    }

    /// The value of `k`, where it is a key.
    pub fn get(&self, k: &K) -> (r: Option<&T>)
        requires
            self.wf(),
        ensures
            r is Some <==> self.map().contains_key(k@),
            r matches Some(v) ==> *v == self.map()[k@],
    {
        let (found, i) = self.find(k);
        if found {
            proof {
                self.lemma_map_entries();
            }
            Some(&self.entries[i].1)
        } else {
            None
        }
    }

    /// Sets the value of `k` to `v`, adding `k` where it was no key.
    pub fn insert(&mut self, k: K, v: T)
        requires
            old(self).wf(),
        ensures
            final(self).wf(),
            final(self).map() == old(self).map().insert(k@, v),
    {
        let ghost old_map = old(self).map();
        let ghost kv = k@;
        proof {
            old(self).lemma_map_entries();
        }
        let (found, i) = self.find(&k);
        if found {
            self.entries.set(i, (k, v));
            proof {
                assert(self.keys() =~= old(self).keys());
                assert(self.values() =~= old(self).values().update(i as int, v));
                self.lemma_map_entries();
                assert forall|q: K::V| #[trigger] self.map().contains_key(q) <==> old_map.insert(
                    kv,
                    v,
                ).contains_key(q) by {
                    if self.map().contains_key(q) {
                        let j = choose|j: int| 0 <= j < self.keys().len() && self.keys()[j] == q;
                    }
                }
                assert forall|q: K::V| #[trigger] self.map().contains_key(q) implies self.map()[q]
                    == old_map.insert(kv, v)[q] by {
                    let j = choose|j: int| 0 <= j < self.keys().len() && self.keys()[j] == q;
                }
                assert(self.map() =~= old_map.insert(kv, v));
            }
        } else {
            self.entries.insert(i, (k, v));
            proof {
                let ok = old(self).keys();
                assert(self.keys() =~= ok.insert(i as int, kv));
                assert(self.values() =~= old(self).values().insert(i as int, v));
                assert forall|a: int, b: int|
                    0 <= a < b < self.keys().len() implies K::key_lt(
                    #[trigger] self.keys()[a],
                    #[trigger] self.keys()[b],
                ) by {
                    if b < i {
                    } else if b == i {
                    } else if a < i {
                        assert(self.keys()[b] == ok[b - 1]);
                        assert(K::key_lt(ok[a], kv));
                        K::lemma_key_lt_transitive(ok[a], kv, ok[b - 1]);
                    } else if a == i {
                        assert(self.keys()[b] == ok[b - 1]);
                    } else {
                        assert(self.keys()[a] == ok[a - 1]);
                        assert(self.keys()[b] == ok[b - 1]);
                    }
                }
                self.lemma_map_entries();
                assert forall|q: K::V| #[trigger] self.map().contains_key(q) <==> old_map.insert(
                    kv,
                    v,
                ).contains_key(q) by {
                    if self.map().contains_key(q) {
                        let j = choose|j: int| 0 <= j < self.keys().len() && self.keys()[j] == q;
                        if j < i {
                            assert(ok[j] == q);
                        } else if j > i {
                            assert(ok[j - 1] == q);
                        }
                    }
                    if q == kv {
                        assert(self.keys()[i as int] == q);
                    } else if old_map.contains_key(q) {
                        let j = choose|j: int| 0 <= j < ok.len() && ok[j] == q;
                        if j < i {
                            assert(self.keys()[j] == q);
                        } else {
                            assert(self.keys()[j + 1] == q);
                        }
                    }
                }
                assert forall|q: K::V| #[trigger] self.map().contains_key(q) implies self.map()[q]
                    == old_map.insert(kv, v)[q] by {
                    let j = choose|j: int| 0 <= j < self.keys().len() && self.keys()[j] == q;
                    if j < i {
                        assert(ok[j] == q);
                    } else if j > i {
                        assert(ok[j - 1] == q);
                    }
                }
                assert(self.map() =~= old_map.insert(kv, v));
            }
        }
    }

    /// Takes `k` and its value out of the map; `None` where `k` was no key.
    pub fn remove(&mut self, k: &K) -> (r: Option<T>)
        requires
            old(self).wf(),
        ensures
            final(self).wf(),
            final(self).map() == old(self).map().remove(k@),
            r == old(self).map().index_opt(k@),
    {
        let ghost old_map = old(self).map();
        let ghost kv = k@;
        proof {
            old(self).lemma_map_entries();
        }
        let (found, i) = self.find(k);
        if !found {
            proof {
                assert(self.map() =~= old_map.remove(kv));
            }
            return None;
        }
        let (_, v) = self.entries.remove(i);
        proof {
            let ok = old(self).keys();
            assert(self.keys() =~= ok.remove(i as int));
            assert(self.values() =~= old(self).values().remove(i as int));
            assert forall|a: int, b: int|
                0 <= a < b < self.keys().len() implies K::key_lt(
                #[trigger] self.keys()[a],
                #[trigger] self.keys()[b],
            ) by {
                if b < i {
                } else if a < i {
                    assert(self.keys()[b] == ok[b + 1]);
                } else {
                    assert(self.keys()[a] == ok[a + 1]);
                    assert(self.keys()[b] == ok[b + 1]);
                }
            }
            old(self).lemma_keys_distinct();
            self.lemma_map_entries();
            assert forall|q: K::V| #[trigger] self.map().contains_key(q) <==> old_map.remove(
                kv,
            ).contains_key(q) by {
                if self.map().contains_key(q) {
                    let j = choose|j: int| 0 <= j < self.keys().len() && self.keys()[j] == q;
                    if j < i {
                        assert(ok[j] == q);
                    } else {
                        assert(ok[j + 1] == q);
                    }
                }
                if old_map.remove(kv).contains_key(q) {
                    let j = choose|j: int| 0 <= j < ok.len() && ok[j] == q;
                    if j < i {
                        assert(self.keys()[j] == q);
                    } else if j > i {
                        assert(self.keys()[j - 1] == q);
                    }
                }
            }
            assert forall|q: K::V| #[trigger] self.map().contains_key(q) implies self.map()[q]
                == old_map.remove(kv)[q] by {
                let j = choose|j: int| 0 <= j < self.keys().len() && self.keys()[j] == q;
                if j < i {
                    assert(ok[j] == q);
                } else {
                    assert(ok[j + 1] == q);
                }
            }
            assert(self.map() =~= old_map.remove(kv));
        }
        Some(v)
    }

    /// The values in increasing order of their keys.
    pub fn into_values(self) -> (vs: Vec<T>)
        requires
            self.wf(),
        ensures
            vs@ == self.values(),
    {
        let ghost all = self.values();
        let mut entries = self.entries;
        let mut vs: Vec<T> = Vec::new();
        while entries.len() > 0
            invariant
                vs@ + entries@.map_values(|e: (K, T)| e.1) == all,
            decreases entries.len(),
        {
            let ghost before = entries@;
            let (_, v) = entries.remove(0);
            proof {
                assert(before.map_values(|e: (K, T)| e.1) =~= seq![v] + entries@.map_values(
                    |e: (K, T)| e.1,
                ));
                assert(vs@.push(v) + entries@.map_values(|e: (K, T)| e.1) =~= vs@ + before.map_values(
                    |e: (K, T)| e.1,
                ));
            }
            vs.push(v);
        }
        assert(vs@ =~= all);
        vs
    }
}

impl<K: MapKey + Duplicate, T: Duplicate> SortedMap<K, T> {
    /// An equal copy of the map.
    pub fn duplicate(&self) -> (m: Self)
        ensures
            m.keys() == self.keys(),
            m.values() == self.values(),
    {
        let mut entries: Vec<(K, T)> = Vec::new();
        let n = self.entries.len();
        let mut i: usize = 0;
        while i < n
            invariant
                n == self.entries@.len(),
                i <= n,
                entries@ == self.entries@.subrange(0, i as int),
            decreases n - i,
        {
            let k = self.entries[i].0.duplicate();
            let v = self.entries[i].1.duplicate();
            entries.push((k, v));
            i = i + 1;
            proof {
                assert(entries@ =~= self.entries@.subrange(0, i as int));
            }
        }
        assert(entries@ =~= self.entries@);
        SortedMap { entries }
    }
}

} // verus!
