use vstd::prelude::*;
use crate::string_set::{swap_remove_at, seq_insert_new, seq_remove_swap, lemma_set_ops, lemma_index_of_unique, lemma_swap_remove_at};

verus! {

/// Keys that executable code can compare by their views.
pub trait MapKey: View + Sized {
    fn same_key(&self, other: &Self) -> (r: bool)
        ensures
            r == (self@ == other@),
    ;
}

impl MapKey for String {
    fn same_key(&self, other: &Self) -> (r: bool) {
        *self == *other
    }
}

impl MapKey for u32 {
    fn same_key(&self, other: &Self) -> (r: bool) {
        *self == *other
    }
}

/// The views of the keys of a list of entries.
pub open spec fn entry_keys<K: View, V>(v: Seq<(K, V)>) -> Seq<K::V> {
    v.map_values(|e: (K, V)| e.0@)
}

/// The values of a list of entries.
pub open spec fn entry_vals<K, V>(v: Seq<(K, V)>) -> Seq<V> {
    v.map_values(|e: (K, V)| e.1)
}

/// A map that remembers the order of its keys, the way a
/// persistent unordered map does: a new key goes to the end, and a removal
/// moves the last entry into the freed place.
pub struct KeyedMap<K, V> {
    keys: Vec<K>,
    vals: Vec<V>,
}

impl<K: MapKey, V> View for KeyedMap<K, V> {
    type V = Map<K::V, V>;

    closed spec fn view(&self) -> Map<K::V, V> {
        Map::new(
            |k: K::V| self.key_seq().contains(k),
            |k: K::V| self.vals@[self.key_seq().index_of(k)],
        )
    }
}

impl<K: MapKey, V> KeyedMap<K, V> {
    /// The keys, in order.
    pub closed spec fn key_seq(&self) -> Seq<K::V> {
        self.keys@.map_values(|k: K| k@)
    }

    /// The values, in the order of their keys.
    pub closed spec fn val_seq(&self) -> Seq<V> {
        self.vals@
    }

    /// Keys and values line up, no key occurs twice, and the map view agrees
    /// with the two sequences.
    pub open spec fn wf(&self) -> bool {
        &&& self.val_seq().len() == self.key_seq().len()
        &&& self.key_seq().no_duplicates()
        &&& forall|k: K::V| #[trigger] self@.contains_key(k) <==> self.key_seq().contains(k)
        &&& forall|i: int|
            0 <= i < self.key_seq().len() ==> #[trigger] self@[self.key_seq()[i]]
                == self.val_seq()[i]
    }

    proof fn lemma_wf(&self)
        requires
            self.keys@.len() == self.vals@.len(),
            self.key_seq().no_duplicates(),
        ensures
            self.wf(),
    {
        assert forall|i: int| 0 <= i < self.key_seq().len() implies #[trigger] self@[self.key_seq()[i]]
            == self.val_seq()[i] by {
            lemma_index_of_unique(self.key_seq(), i);
            assert(self.key_seq().contains(self.key_seq()[i]));
        }
    }

    pub fn new() -> (r: KeyedMap<K, V>)
        ensures
            r.wf(),
            r@ == Map::<K::V, V>::empty(),
            r.key_seq() == Seq::<K::V>::empty(),
            r.val_seq() == Seq::<V>::empty(),
    {
        let r = KeyedMap { keys: Vec::new(), vals: Vec::new() };
        assert(r.key_seq() =~= Seq::<K::V>::empty());
        assert(r@ =~= Map::<K::V, V>::empty());
        proof {
            r.lemma_wf();
        }
        r
    }

    pub fn len(&self) -> (r: usize)
        requires
            self.wf(),
        ensures
            r == self.key_seq().len(),
    {
        self.keys.len()
    }

    /// Position of key `k`, if present.
    fn position(&self, k: &K) -> (r: Option<usize>)
        requires
            self.wf(),
        ensures
            match r {
                Some(i) => i < self.key_seq().len() && self.key_seq()[i as int] == k@
                    && self.key_seq().index_of(k@) == i,
                None => !self.key_seq().contains(k@),
            },
    {
        let n = self.keys.len();
        let mut i: usize = 0;
        while i < n
            invariant
                self.wf(),
                n == self.keys@.len(),
                i <= n,
                forall|j: int| 0 <= j < i ==> self.key_seq()[j] != k@,
            decreases n - i,
        {
            if self.keys[i].same_key(k) {
                proof {
                    lemma_index_of_unique(self.key_seq(), i as int);
                }
                return Some(i);
            }
            i = i + 1;
        }
        assert forall|j: int| 0 <= j < self.key_seq().len() implies self.key_seq()[j] != k@ by {}
        None
    }

    pub fn contains_key(&self, k: &K) -> (r: bool)
        requires
            self.wf(),
        ensures
            r == self@.contains_key(k@),
    {
        self.position(k).is_some()
    }

    /// The value under `k`, if any.
    pub fn get(&self, k: &K) -> (r: Option<&V>)
        requires
            self.wf(),
        ensures
            match r {
                Some(v) => self@.contains_key(k@) && *v == self@[k@],
                None => !self@.contains_key(k@),
            },
    {
        match self.position(k) {
            Some(i) => {
                assert(self@[self.key_seq()[i as int]] == self.val_seq()[i as int]);
                Some(&self.vals[i])
            },
            None => None,
        }
    }

    /// The key at position `i`.
    pub fn key_at(&self, i: usize) -> (r: &K)
        requires
            self.wf(),
            i < self.key_seq().len(),
        ensures
            r@ == self.key_seq()[i as int],
    {
        &self.keys[i]
    }

    /// The value at position `i`.
    pub fn val_at(&self, i: usize) -> (r: &V)
        requires
            self.wf(),
            i < self.key_seq().len(),
        ensures
            *r == self.val_seq()[i as int],
    {
        &self.vals[i]
    }

    /// Puts `v` under `k`: in place when `k` is present, at the end otherwise.
    pub fn insert(&mut self, k: K, v: V)
        requires
            old(self).wf(),
        ensures
            final(self).wf(),
            final(self)@ == old(self)@.insert(k@, v),
            final(self).key_seq() == seq_insert_new(old(self).key_seq(), k@),
            final(self).val_seq() == if old(self).key_seq().contains(k@) {
                old(self).val_seq().update(old(self).key_seq().index_of(k@), v)
            } else {
                old(self).val_seq().push(v)
            },
    {
        let ghost ks = self.key_seq();
        let ghost m = self@;
        proof {
            lemma_set_ops(ks, k@);
        }
        match self.position(&k) {
            Some(i) => {
                self.vals.set(i, v);
                assert(self.key_seq() =~= ks);
                proof {
                    self.lemma_wf();
                }
                assert forall|key: K::V| #[trigger] self@.contains_key(key) <==> m.insert(
                    k@,
                    v,
                ).contains_key(key) by {}
                assert forall|key: K::V| self@.contains_key(key) implies #[trigger] self@[key]
                    == m.insert(k@, v)[key] by {
                    let j = ks.index_of(key);
                    if key != k@ {
                        assert(ks.contains(key));
                        assert(self.key_seq()[j] == key);
                        assert(m[ks[j]] == old(self).val_seq()[j]);
                    }
                }
                assert(self@ =~= m.insert(k@, v));
            },
            None => {
                self.keys.push(k);
                self.vals.push(v);
                assert(self.key_seq() =~= ks.push(k@));
                proof {
                    self.lemma_wf();
                }
                assert forall|key: K::V| self@.contains_key(key) implies #[trigger] self@[key]
                    == m.insert(k@, v)[key] by {
                    let ns = self.key_seq();
                    let j = ns.index_of(key);
                    if key == k@ {
                        lemma_index_of_unique(ns, ks.len() as int);
                    } else {
                        assert(ks.contains(key));
                        let j0 = ks.index_of(key);
                        assert(ns[j0] == key);
                        lemma_index_of_unique(ns, j0);
                        assert(m[ks[j0]] == old(self).val_seq()[j0]);
                    }
                }
                assert(self@ =~= m.insert(k@, v));
            },
        }
    }

    /// Removes the entry under `k`, moving the last entry into its place;
    /// gives back the removed value.
    pub fn remove(&mut self, k: &K) -> (r: Option<V>)
        requires
            old(self).wf(),
        ensures
            final(self).wf(),
            r == old(self)@.get(k@),
            final(self)@ == old(self)@.remove(k@),
            final(self).key_seq() == seq_remove_swap(old(self).key_seq(), k@),
            final(self).val_seq() == if old(self).key_seq().contains(k@) {
                swap_remove_at(old(self).val_seq(), old(self).key_seq().index_of(k@))
            } else {
                old(self).val_seq()
            },
    {
        let ghost ks = self.key_seq();
        let ghost vs = self.val_seq();
        let ghost m = self@;
        proof {
            lemma_set_ops(ks, k@);
        }
        match self.position(k) {
            Some(i) => {
                let ghost ii = i as int;
                assert(m[ks[ii]] == vs[ii]);
                self.keys.swap_remove(i);
                let v = self.vals.swap_remove(i);
                assert(self.key_seq() =~= swap_remove_at(ks, ii));
                assert(self.val_seq() =~= swap_remove_at(vs, ii));
                proof {
                    lemma_swap_remove_at(ks, ii);
                    self.lemma_wf();
                }
                assert forall|key: K::V| #[trigger] self@.contains_key(key) <==> m.remove(
                    k@,
                ).contains_key(key) by {}
                assert forall|key: K::V| self@.contains_key(key) implies #[trigger] self@[key]
                    == m.remove(k@)[key] by {
                    let ns = self.key_seq();
                    let j = ns.index_of(key);
                    assert(ks.contains(key));
                    let j0 = ks.index_of(key);
                    assert(m[ks[j0]] == vs[j0]);
                    if j0 == ks.len() - 1 {
                        assert(ns[ii] == key);
                        lemma_index_of_unique(ns, ii);
                    } else {
                        assert(ns[j0] == key);
                        lemma_index_of_unique(ns, j0);
                    }
                }
                assert(self@ =~= m.remove(k@));
                Some(v)
            },
            None => {
                assert(m.remove(k@) =~= m);
                None
            },
        }
    }

    /// The map holding `entries` in their order, or `None` when a key occurs
    /// twice.
    pub fn from_entries(entries: Vec<(K, V)>) -> (r: Option<KeyedMap<K, V>>)
        ensures
            match r {
                Some(m) => m.wf() && m.key_seq() == entry_keys(entries@) && m.val_seq()
                    == entry_vals(entries@),
                None => !entry_keys(entries@).no_duplicates(),
            },
    {
        let ghost es = entries@;
        let mut rest = entries;
        let mut m: KeyedMap<K, V> = KeyedMap::new();
        let ghost mut i: int = 0;
        while rest.len() > 0
            invariant
                m.wf(),
                es == entries@,
                0 <= i <= es.len(),
                rest@ == es.skip(i),
                m.key_seq() == entry_keys(es.take(i)),
                m.val_seq() == entry_vals(es.take(i)),
            decreases rest@.len(),
        {
            let ghost ks = m.key_seq();
            let (k, v) = rest.remove(0);
            assert(es[i] == (k, v)) by {
                assert(es.skip(i)[0] == es[i]);
            }
            assert(es.take(i + 1) =~= es.take(i).push(es[i]));
            if m.contains_key(&k) {
                proof {
                    let j = choose|j: int| 0 <= j < ks.len() && ks[j] == k@;
                    assert(ks.len() == i);
                    assert(es.take(i)[j] == es[j]);
                    assert(entry_keys(es)[j] == k@);
                    assert(entry_keys(es)[i] == k@);
                }
                return None;
            }
            m.insert(k, v);
            proof {
                i = i + 1;
            }
            assert(rest@ =~= es.skip(i));
            assert(m.key_seq() =~= entry_keys(es.take(i)));
            assert(m.val_seq() =~= entry_vals(es.take(i)));
        }
        assert(es.take(i) =~= es);
        Some(m)
    }

    /// Removes every entry.
    pub fn clear(&mut self)
        requires
            old(self).wf(),
        ensures
            final(self).wf(),
            final(self)@ == Map::<K::V, V>::empty(),
            final(self).key_seq() == Seq::<K::V>::empty(),
            final(self).val_seq() == Seq::<V>::empty(),
    {
        self.keys.clear();
        self.vals.clear();
        assert(self.key_seq() =~= Seq::<K::V>::empty());
        assert(self.val_seq() =~= Seq::<V>::empty());
        assert(self@ =~= Map::<K::V, V>::empty());
        proof {
            self.lemma_wf();
        }
    }
}

} // verus!
