//! A map from strings to values that keeps its keys in insertion order.

use vstd::prelude::*;

verus! {

/// A finite map keyed by strings. Keys are compared by their characters;
/// each key occurs at most once, and keys keep the order in which they were
/// first inserted.
pub struct StrMap<V> {
    entries: Vec<(String, V)>,
}

impl<V> View for StrMap<V> {
    type V = Map<Seq<char>, V>;

    closed spec fn view(&self) -> Map<Seq<char>, V> {
        Map::new(
            |k: Seq<char>| self.key_order().contains(k),
            |k: Seq<char>| self.entries@[self.key_order().index_of(k)].1,
        )
    }
}

impl<V> StrMap<V> {
    /// The keys, in the order in which they were first inserted.
    pub closed spec fn key_order(&self) -> Seq<Seq<char>> {
        self.entries@.map_values(|e: (String, V)| e.0@)
    }

    /// Well-formedness: no key occurs twice.
    pub closed spec fn wf(&self) -> bool {
        self.key_order().no_duplicates()
    }

    /// The key order lists each key of the map exactly once.
    pub proof fn lemma_key_order(&self)
        requires
            self.wf(),
        ensures
            self.key_order().no_duplicates(),
            self.key_order().to_set() == self@.dom(),
            self.key_order().len() == self@.len(),
            self@.dom().finite(),
    {
        assert(self.key_order().to_set() =~= self@.dom());
        self.key_order().unique_seq_to_set();
    }

    proof fn lemma_value_at(&self, i: int)
        requires
            self.wf(),
            0 <= i < self.entries@.len(),
        ensures
            self@.contains_key(self.entries@[i].0@),
            self@[self.entries@[i].0@] == self.entries@[i].1,
    {
        let k = self.entries@[i].0@;
        assert(self.key_order()[i] == k);
        let j = self.key_order().index_of(k);
        assert(self.key_order().contains(k));
        assert(self.key_order()[j] == k);
    }

    /// An empty map.
    pub fn new() -> (m: Self)
        ensures
            m.wf(),
            m@ == Map::<Seq<char>, V>::empty(),
            m.key_order() == Seq::<Seq<char>>::empty(),
    {
        let m = StrMap { entries: Vec::new() };
        assert(m.key_order() =~= Seq::<Seq<char>>::empty());
        assert(m@ =~= Map::<Seq<char>, V>::empty());
        m
    }

    fn find(&self, key: &String) -> (r: Option<usize>)
        requires
            self.wf(),
        ensures
            match r {
                Some(i) => i < self.entries@.len() && self.key_order()[i as int] == key@,
                None => !self.key_order().contains(key@),
            },
    {
        let n = self.entries.len();
        let mut i: usize = 0;
        while i < n
            invariant
                i <= n == self.entries@.len(),
                forall|j: int| 0 <= j < i ==> self.key_order()[j] != key@,
            decreases n - i,
        {
            if self.entries[i].0 == *key {
                return Some(i);
            }
            i = i + 1;
        }
        None
    }

    /// The number of keys.
    pub fn len(&self) -> (n: usize)
        requires
            self.wf(),
        ensures
            n == self@.len(),
    {
        proof {
            self.lemma_key_order();
        }
        self.entries.len()
    }

    /// Whether `key` is present.
    pub fn contains_key(&self, key: &String) -> (b: bool)
        requires
            self.wf(),
        ensures
            b == self@.contains_key(key@),
    {
        self.find(key).is_some()
    }

    /// The value stored under `key`, if any.
    pub fn get(&self, key: &String) -> (r: Option<&V>)
        requires
            self.wf(),
        ensures
            match r {
                Some(v) => self@.contains_key(key@) && *v == self@[key@],
                None => !self@.contains_key(key@),
            },
    {
        match self.find(key) {
            Some(i) => {
                proof {
                    self.lemma_value_at(i as int);
                }
                Some(&self.entries[i].1)
            },
            None => None,
        }
    }

    /// Stores `value` under `key`, replacing the value stored there before.
    /// A new key goes to the end of the key order; an existing key keeps its
    /// place.
    pub fn insert(&mut self, key: String, value: V)
        requires
            old(self).wf(),
        ensures
            final(self).wf(),
            final(self)@ == old(self)@.insert(key@, value),
            old(self)@.contains_key(key@) ==> final(self).key_order() == old(self).key_order(),
            !old(self)@.contains_key(key@) ==> final(self).key_order() == old(self).key_order().push(
                key@,
            ),
    {
        let ghost k = key@;
        match self.find(&key) {
            Some(i) => {
                self.entries.set(i, (key, value));
                assert(self.key_order() =~= old(self).key_order());
                assert forall|q: Seq<char>| #[trigger]
                    self@.contains_key(q) implies self@[q] == old(self)@.insert(k, value)[q] by {
                    let j = self.key_order().index_of(q);
                    assert(self.key_order().contains(q));
                    if q == k {
                        assert(self.key_order()[i as int] == k);
                    } else {
                        let oj = old(self).key_order().index_of(q);
                        assert(old(self).key_order().contains(q));
                    }
                }
                assert(self@ =~= old(self)@.insert(k, value));
            },
            None => {
                self.entries.push((key, value));
                let ghost n = old(self).entries@.len();
                assert(self.key_order() =~= old(self).key_order().push(k));
                assert forall|q: Seq<char>| #[trigger]
                    self@.contains_key(q) implies self@[q] == old(self)@.insert(k, value)[q] by {
                    let j = self.key_order().index_of(q);
                    assert(self.key_order().contains(q));
                    if q == k {
                        assert(self.key_order()[n as int] == k);
                    } else {
                        assert(old(self).key_order().contains(q)) by {
                            assert(self.key_order()[j] == q);
                        }
                        let oj = old(self).key_order().index_of(q);
                        assert(self.key_order()[oj] == q);
                    }
                }
                assert forall|q: Seq<char>|
                    old(self)@.insert(k, value).contains_key(q) implies #[trigger] self@.contains_key(
                    q,
                ) by {
                    if q != k {
                        let oj = old(self).key_order().index_of(q);
                        assert(old(self).key_order().contains(q));
                        assert(self.key_order()[oj] == q);
                    } else {
                        assert(self.key_order()[n as int] == k);
                    }
                }
                assert(self@ =~= old(self)@.insert(k, value));
            },
        }
    }

    /// Removes `key` and hands back the value that was stored under it.
    pub fn remove(&mut self, key: &String) -> (r: Option<V>)
        requires
            old(self).wf(),
        ensures
            final(self).wf(),
            final(self)@ == old(self)@.remove(key@),
            r == (if old(self)@.contains_key(key@) {
                Some(old(self)@[key@])
            } else {
                None::<V>
            }),
    {
        match self.find(key) {
            Some(i) => {
                proof {
                    old(self).lemma_value_at(i as int);
                }
                let (_k, v) = self.entries.remove(i);
                let ghost ok = old(self).key_order();
                assert(self.key_order() =~= ok.remove(i as int));
                assert forall|a: int, b: int|
                    0 <= a < b < self.key_order().len() implies self.key_order()[a]
                    != self.key_order()[b] by {
                    let a2 = if a < i { a } else { a + 1 };
                    let b2 = if b < i { b } else { b + 1 };
                    assert(self.key_order()[a] == ok[a2]);
                    assert(self.key_order()[b] == ok[b2]);
                }
                assert forall|q: Seq<char>|
                    self@.contains_key(q) <==> old(self)@.remove(key@).contains_key(q) by {
                    if self.key_order().contains(q) {
                        let j = self.key_order().index_of(q);
                        let j2 = if j < i { j } else { j + 1 };
                        assert(ok[j2] == q);
                        assert(ok.contains(q));
                    }
                    if q != key@ && ok.contains(q) {
                        let j = ok.index_of(q);
                        assert(j != i);
                        let j2 = if j < i { j } else { j - 1 };
                        assert(self.key_order()[j2] == q);
                    }
                }
                assert forall|q: Seq<char>| #[trigger]
                    self@.contains_key(q) implies self@[q] == old(self)@.remove(key@)[q] by {
                    let j = self.key_order().index_of(q);
                    assert(self.key_order().contains(q));
                    let j2 = if j < i { j } else { j + 1 };
                    assert(ok[j2] == q);
                    assert(old(self).entries@[j2] == self.entries@[j]);
                    old(self).lemma_value_at(j2);
                }
                assert(self@ =~= old(self)@.remove(key@));
                Some(v)
            },
            None => {
                assert(self@ =~= old(self)@.remove(key@));
                None
            },
        }
    }

    /// The key and value at position `i` of the key order.
    pub fn entry(&self, i: usize) -> (r: (&String, &V))
        requires
            self.wf(),
            i < self@.len(),
        ensures
            r.0@ == self.key_order()[i as int],
            self@.contains_key(r.0@),
            *r.1 == self@[r.0@],
    {
        proof {
            self.lemma_key_order();
            self.lemma_value_at(i as int);
        }
        let e = &self.entries[i];
        (&e.0, &e.1)
    }

    /// The keys in key order.
    pub fn keys(&self) -> (r: Vec<String>)
        requires
            self.wf(),
        ensures
            r@.map_values(|k: String| k@) == self.key_order(),
    {
        let n = self.entries.len();
        let mut r: Vec<String> = Vec::new();
        let mut i: usize = 0;
        while i < n
            invariant
                i <= n == self.entries@.len(),
                r@.len() == i,
                r@.map_values(|k: String| k@) =~= self.key_order().subrange(0, i as int),
            decreases n - i,
        {
            let ghost before = r@;
            r.push(self.entries[i].0.clone());
            assert(r@ =~= before.push(r@[i as int]));
            assert(r@.map_values(|k: String| k@) =~= before.map_values(|k: String| k@).push(
                self.key_order()[i as int],
            ));
            i = i + 1;
        }
        r
    }
}

} // verus!
