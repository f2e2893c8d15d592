//! A map keyed by strings, kept as a vector of entries in insertion order.
use vstd::prelude::*;
use crate::text::str_eq;

verus! {

/// A finite map from string keys to values. Each key occurs at most once;
/// entries keep the order in which their keys were first inserted.
pub struct StringMap<V> {
    entries: Vec<(String, V)>,
}

impl<V> StringMap<V> {
    /// The keys, in entry order.
    pub closed spec fn key_seq(&self) -> Seq<Seq<char>> {
        Seq::new(self.entries@.len(), |i: int| self.entries@[i].0@)
    }

    /// The values, in entry order.
    pub closed spec fn value_seq(&self) -> Seq<V> {
        Seq::new(self.entries@.len(), |i: int| self.entries@[i].1)
    }

    /// Well-formedness: no key occurs twice.
    pub closed spec fn wf(&self) -> bool {
        self.key_seq().no_duplicates()
    }

    /// Position of key `k` among the entries (meaningful when present).
    pub closed spec fn pos_of(&self, k: Seq<char>) -> int {
        choose|i: int| 0 <= i < self.key_seq().len() && self.key_seq()[i] == k
    }

    /// The map that the entries denote.
    pub closed spec fn as_map(&self) -> Map<Seq<char>, V> {
        Map::new(|k: Seq<char>| self.key_seq().contains(k), |k: Seq<char>| self.value_seq()[self.pos_of(k)])
    }

    /// Relates the entry sequences to the map view of a well-formed map.
    pub proof fn lemma_entries(&self)
        requires
            self.wf(),
        ensures
            self.key_seq().no_duplicates(),
            self.key_seq().len() == self.value_seq().len(),
            self@.dom().finite(),
            self@.dom().len() == self.key_seq().len(),
            self@.dom() == self.key_seq().to_set(),
            forall|i: int| 0 <= i < self.key_seq().len() ==> #[trigger] self@.contains_key(self.key_seq()[i])
                && self@[self.key_seq()[i]] == self.value_seq()[i],
            forall|k: Seq<char>| #[trigger] self@.contains_key(k) ==> exists|i: int| 0 <= i < self.key_seq().len() && self.key_seq()[i] == k,
    {
        assert forall|i: int| 0 <= i < self.key_seq().len() implies #[trigger] self@.contains_key(self.key_seq()[i])
            && self@[self.key_seq()[i]] == self.value_seq()[i] by {
            let k = self.key_seq()[i];
            assert(self.key_seq().contains(k));
            let p = self.pos_of(k);
            assert(0 <= p < self.key_seq().len() && self.key_seq()[p] == k);
            assert(p == i);
        }
        assert(self@.dom() =~= self.key_seq().to_set());
        self.key_seq().unique_seq_to_set();
    }

    /// Creates an empty map.
    pub fn new() -> (m: Self)
        ensures
            m.wf(),
            m@ == Map::<Seq<char>, V>::empty(),
            m.key_seq() == Seq::<Seq<char>>::empty(),
    {
        let m = StringMap { entries: Vec::new() };
        assert(m@ =~= Map::<Seq<char>, V>::empty());
        m
    }

    /// Number of entries.
    pub fn len(&self) -> (n: usize)
        requires
            self.wf(),
        ensures
            n == self@.dom().len(),
            n == self.key_seq().len(),
    {
        proof { self.lemma_entries(); }
        self.entries.len()
    }

    /// The key of the entry at position `i`.
    pub fn key_at(&self, i: usize) -> (k: &String)
        requires
            i < self.key_seq().len(),
        ensures
            k@ == self.key_seq()[i as int],
    {
        &self.entries[i].0
    }

    /// The value of the entry at position `i`.
    pub fn value_at(&self, i: usize) -> (v: &V)
        requires
            i < self.key_seq().len(),
        ensures
            *v == self.value_seq()[i as int],
    {
        &self.entries[i].1
    }

    /// Position of `key` among the entries, if present.
    pub fn find(&self, key: &str) -> (r: Option<usize>)
        requires
            self.wf(),
        ensures
            match r {
                Some(i) => i < self.key_seq().len() && self.key_seq()[i as int] == key@,
                None => !self.key_seq().contains(key@),
            },
            r is Some <==> self@.contains_key(key@),
    {
        proof { self.lemma_entries(); }
        let n = self.entries.len();
        for i in 0..n
            invariant
                n == self.key_seq().len(),
                forall|j: int| 0 <= j < i ==> self.key_seq()[j] != key@,
        {
            if str_eq(self.entries[i].0.as_str(), key) {
                assert(self.key_seq()[i as int] == key@);
                return Some(i);
            }
        }
        None
    }

    /// Whether `key` has an entry.
    pub fn contains_key(&self, key: &str) -> (r: bool)
        requires
            self.wf(),
        ensures
            r == self@.contains_key(key@),
    {
        self.find(key).is_some()
    }

    /// The value stored for `key`, if any.
    pub fn get(&self, key: &str) -> (r: Option<&V>)
        requires
            self.wf(),
        ensures
            match r {
                Some(v) => self@.contains_key(key@) && *v == self@[key@],
                None => !self@.contains_key(key@),
            },
    {
        proof { self.lemma_entries(); }
        match self.find(key) {
            Some(i) => Some(&self.entries[i].1),
            None => None,
        }
    }

    /// Stores `value` under `key`, returning the value it replaces. A new key is
    /// appended after the existing entries; an existing key keeps its position.
    pub fn insert(&mut self, key: String, value: V) -> (old_value: Option<V>)
        requires
            old(self).wf(),
        ensures
            final(self).wf(),
            final(self)@ == old(self)@.insert(key@, value),
            match old_value {
                Some(v) => old(self)@.contains_key(key@) && v == old(self)@[key@],
                None => !old(self)@.contains_key(key@),
            },
            old(self)@.contains_key(key@) ==> final(self).key_seq() == old(self).key_seq(),
            !old(self)@.contains_key(key@) ==> final(self).key_seq() == old(self).key_seq().push(key@),
    {
        proof { self.lemma_entries(); }
        match self.find(key.as_str()) {
            Some(i) => {
                let ghost ks = self.key_seq();
                let (k_old, v_old) = self.entries.remove(i);
                self.entries.insert(i, (key, value));
                assert(self.key_seq() =~= ks);
                proof { self.lemma_entries(); }
                assert(self@ =~= old(self)@.insert(key@, value));
                Some(v_old)
            },
            None => {
                self.entries.push((key, value));
                assert(self.key_seq() =~= old(self).key_seq().push(key@));
                proof {
                    self.lemma_entries();
                    old(self).lemma_entries();
                    assert forall|k: Seq<char>| #[trigger] old(self)@.contains_key(k) implies self@.contains_key(k) && self@[k] == old(self)@[k] by {
                        let j = choose|j: int| 0 <= j < old(self).key_seq().len() && old(self).key_seq()[j] == k;
                        assert(self.key_seq()[j] == k);
                        assert(self.value_seq()[j] == old(self).value_seq()[j]);
                    }
                    assert forall|k: Seq<char>| #[trigger] self@.contains_key(k) implies old(self)@.contains_key(k) || k == key@ by {
                        let j = choose|j: int| 0 <= j < self.key_seq().len() && self.key_seq()[j] == k;
                        if j < old(self).key_seq().len() { assert(old(self).key_seq()[j] == k); }
                    }
                    assert(self.key_seq()[old(self).key_seq().len() as int] == key@);
                }
                assert(self@ =~= old(self)@.insert(key@, value));
                None
            },
        }
    }

    /// Removes the entry for `key`, returning its value. The other entries keep their order.
    pub fn remove(&mut self, key: &str) -> (old_value: Option<V>)
        requires
            old(self).wf(),
        ensures
            final(self).wf(),
            final(self)@ == old(self)@.remove(key@),
            match old_value {
                Some(v) => old(self)@.contains_key(key@) && v == old(self)@[key@],
                None => !old(self)@.contains_key(key@),
            },
    {
        proof { self.lemma_entries(); }
        match self.find(key) {
            Some(i) => {
                let ghost ks = self.key_seq();
                let (_k, v) = self.entries.remove(i);
                assert(self.key_seq() =~= ks.remove(i as int));
                proof {
                    assert forall|a: int, b: int| 0 <= a < b < self.key_seq().len() implies self.key_seq()[a] != self.key_seq()[b] by {
                        if a < i { if b < i {} else { assert(ks[b + 1] == self.key_seq()[b]); } }
                        else { assert(ks[a + 1] == self.key_seq()[a]); assert(ks[b + 1] == self.key_seq()[b]); }
                    }
                    self.lemma_entries();
                    assert forall|k: Seq<char>| self@.contains_key(k) <==> old(self)@.remove(key@).contains_key(k) by {
                        if self@.contains_key(k) {
                            let j = choose|j: int| 0 <= j < self.key_seq().len() && self.key_seq()[j] == k;
                            if j < i { assert(ks[j] == k); } else { assert(ks[j + 1] == k); }
                        }
                        if old(self)@.remove(key@).contains_key(k) {
                            let j = choose|j: int| 0 <= j < ks.len() && ks[j] == k;
                            assert(j != i);
                            if j < i { assert(self.key_seq()[j] == k); } else { assert(self.key_seq()[j - 1] == k); }
                        }
                    }
                    assert forall|k: Seq<char>| #[trigger] self@.contains_key(k) implies self@[k] == old(self)@[k] by {
                        let j = choose|j: int| 0 <= j < self.key_seq().len() && self.key_seq()[j] == k;
                        if j < i { assert(ks[j] == k); assert(self.value_seq()[j] == old(self).value_seq()[j]); }
                        else { assert(ks[j + 1] == k); assert(self.value_seq()[j] == old(self).value_seq()[j + 1]); }
                    }
                    assert(self@ =~= old(self)@.remove(key@));
                }
                Some(v)
            },
            None => {
                assert(old(self)@.remove(key@) =~= old(self)@);
                None
            },
        }
    }

    /// The keys, in entry order.
    pub fn keys(&self) -> (r: Vec<String>)
        requires
            self.wf(),
        ensures
            crate::text::strings_view(r@) == self.key_seq(),
            crate::text::strings_view(r@).no_duplicates(),
            crate::text::strings_view(r@).to_set() == self@.dom(),
    {
        proof { self.lemma_entries(); }
        let mut out: Vec<String> = Vec::new();
        let n = self.entries.len();
        for i in 0..n
            invariant
                n == self.entries@.len(),
                n == self.key_seq().len(),
                out@.len() == i,
                forall|j: int| 0 <= j < i ==> (#[trigger] out@[j])@ == self.key_seq()[j],
        {
            let k = self.entries[i].0.clone();
            assert(k@ == self.key_seq()[i as int]);
            out.push(k);
        }
        assert(crate::text::strings_view(out@) =~= self.key_seq());
        out
    }

    /// Removes every entry.
    pub fn clear(&mut self)
        ensures
            final(self).wf(),
            final(self)@ == Map::<Seq<char>, V>::empty(),
            final(self).key_seq() == Seq::<Seq<char>>::empty(),
    {
        self.entries.clear();
        assert(self.key_seq() =~= Seq::<Seq<char>>::empty());
        assert(self@ =~= Map::<Seq<char>, V>::empty());
    }
}

impl<V> View for StringMap<V> {
    type V = Map<Seq<char>, V>;

    closed spec fn view(&self) -> Map<Seq<char>, V> {
        self.as_map()
    }
}

} // verus!
