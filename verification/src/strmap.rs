//! A map keyed by strings (addresses by their strkey, or category names),
//! held as a list of entries with pairwise distinct keys.
use vstd::prelude::*;

verus! {

/// A finite map from strings to values.
pub struct StrMap<V> {
    entries: Vec<(String, V)>,
}

impl<V> StrMap<V> {
    /// The keys of the entries are pairwise distinct.
    #[verifier::type_invariant]
    spec fn distinct_keys(&self) -> bool {
        forall|i: int, j: int|
            0 <= i < j < self.entries@.len() ==> #[trigger] self.entries@[i].0@
                != #[trigger] self.entries@[j].0@
    }

    spec fn has_key_at(&self, k: Seq<char>, i: int) -> bool {
        0 <= i < self.entries@.len() && self.entries@[i].0@ == k
    }

    /// The map's contents.
    pub closed spec fn contents(&self) -> Map<Seq<char>, V> {
        Map::new(
            |k: Seq<char>| exists|i: int| self.has_key_at(k, i),
            |k: Seq<char>| self.entries@[choose|i: int| self.has_key_at(k, i)].1,
        )
    }

    proof fn lemma_entry(&self, i: int)
        requires
            self.distinct_keys(),
            0 <= i < self.entries@.len(),
        ensures
            self.contents().contains_key(self.entries@[i].0@),
            self.contents()[self.entries@[i].0@] == self.entries@[i].1,
    {
        let k = self.entries@[i].0@;
        assert(self.has_key_at(k, i));
        let j = choose|j: int| self.has_key_at(k, j);
        if i != j {
            if i < j {
                assert(self.entries@[i].0@ != self.entries@[j].0@);
            } else {
                assert(self.entries@[j].0@ != self.entries@[i].0@);
            }
        }
    }

    /// The empty map.
    pub fn new() -> (m: StrMap<V>)
        ensures
            m.contents() == Map::<Seq<char>, V>::empty(),
    {
        let m = StrMap { entries: Vec::new() };
        assert(m.contents() =~= Map::<Seq<char>, V>::empty());
        m
    }

    fn find(&self, key: &String) -> (r: Option<usize>)
        ensures
            match r {
                Some(i) => i < self.entries@.len() && self.entries@[i as int].0@ == key@,
                None => forall|i: int|
                    0 <= i < self.entries@.len() ==> #[trigger] self.entries@[i].0@ != key@,
            },
    {
        let mut i: usize = 0;
        while i < self.entries.len()
            invariant
                i <= self.entries@.len(),
                forall|j: int| 0 <= j < i ==> #[trigger] self.entries@[j].0@ != key@,
            decreases self.entries@.len() - i,
        {
            if self.entries[i].0 == *key {
                return Some(i);
            }
            i = i + 1;
        }
        None
    }

    /// The value under `key`, if any.
    pub fn get(&self, key: &String) -> (r: Option<&V>)
        ensures
            match r {
                Some(v) => self.contents().contains_key(key@) && *v == self.contents()[key@],
                None => !self.contents().contains_key(key@),
            },
    {
        proof {
            use_type_invariant(self);
        }
        match self.find(key) {
            Some(i) => {
                proof {
                    self.lemma_entry(i as int);
                }
                Some(&self.entries[i].1)
            },
            None => None,
        }
    }

    /// Whether `key` has a value.
    pub fn contains_key(&self, key: &String) -> (r: bool)
        ensures
            r == self.contents().contains_key(key@),
    {
        self.get(key).is_some()
    }

    /// Sets the value under `key`.
    pub fn insert(&mut self, key: String, value: V)
        ensures
            final(self).contents() == old(self).contents().insert(key@, value),
    {
        proof {
            use_type_invariant(&*self);
        }
        let ghost before = *self;
        match self.find(&key) {
            Some(i) => {
                let ghost k = key@;
                let mut entries: Vec<(String, V)> = Vec::new();
                std::mem::swap(&mut entries, &mut self.entries);
                entries.set(i, (key, value));
                proof {
                    assert forall|a: int, b: int|
                        0 <= a < b < entries@.len() implies #[trigger] entries@[a].0@
                        != #[trigger] entries@[b].0@ by {
                        assert(before.entries@[a].0@ != before.entries@[b].0@);
                    }
                }
                self.entries = entries;
                proof {
                    assert forall|a: int, b: int|
                        0 <= a < b < self.entries@.len() implies #[trigger] self.entries@[a].0@
                        != #[trigger] self.entries@[b].0@ by {
                        assert(before.entries@[a].0@ != before.entries@[b].0@);
                    }
                    assert forall|k2: Seq<char>|
                        #[trigger] self.contents().contains_key(k2) == before.contents().insert(
                            k,
                            value,
                        ).contains_key(k2) by {
                        if exists|j: int| self.has_key_at(k2, j) {
                            let j = choose|j: int| self.has_key_at(k2, j);
                            assert(before.has_key_at(k2, j) || k2 == k);
                        }
                        if exists|j: int| before.has_key_at(k2, j) {
                            let j = choose|j: int| before.has_key_at(k2, j);
                            assert(self.has_key_at(k2, j) || k2 == k);
                        }
                        assert(self.has_key_at(k, i as int));
                    }
                    assert forall|k2: Seq<char>| #[trigger]
                        self.contents().contains_key(k2) implies self.contents()[k2]
                        == before.contents().insert(k, value)[k2] by {
                        let j = choose|j: int| self.has_key_at(k2, j);
                        self.lemma_entry(j);
                        if k2 != k {
                            before.lemma_entry(j);
                        }
                    }
                    assert(self.contents() =~= before.contents().insert(k, value));
                }
            },
            None => {
                let ghost k = key@;
                let mut entries: Vec<(String, V)> = Vec::new();
                std::mem::swap(&mut entries, &mut self.entries);
                entries.push((key, value));
                proof {
                    assert forall|a: int, b: int|
                        0 <= a < b < entries@.len() implies #[trigger] entries@[a].0@
                        != #[trigger] entries@[b].0@ by {
                        if b < before.entries@.len() {
                            assert(before.entries@[a].0@ != before.entries@[b].0@);
                        }
                    }
                }
                self.entries = entries;
                proof {
                    let n = before.entries@.len() as int;
                    assert forall|a: int, b: int|
                        0 <= a < b < self.entries@.len() implies #[trigger] self.entries@[a].0@
                        != #[trigger] self.entries@[b].0@ by {
                        if b < n {
                            assert(before.entries@[a].0@ != before.entries@[b].0@);
                        }
                    }
                    assert forall|k2: Seq<char>|
                        #[trigger] self.contents().contains_key(k2) == before.contents().insert(
                            k,
                            value,
                        ).contains_key(k2) by {
                        if exists|j: int| self.has_key_at(k2, j) {
                            let j = choose|j: int| self.has_key_at(k2, j);
                            assert(before.has_key_at(k2, j) || k2 == k);
                        }
                        if exists|j: int| before.has_key_at(k2, j) {
                            let j = choose|j: int| before.has_key_at(k2, j);
                            assert(self.has_key_at(k2, j));
                        }
                        assert(self.has_key_at(k, n));
                    }
                    assert forall|k2: Seq<char>| #[trigger]
                        self.contents().contains_key(k2) implies self.contents()[k2]
                        == before.contents().insert(k, value)[k2] by {
                        let j = choose|j: int| self.has_key_at(k2, j);
                        self.lemma_entry(j);
                        if k2 != k {
                            before.lemma_entry(j);
                        }
                    }
                    assert(self.contents() =~= before.contents().insert(k, value));
                }
            },
        }
    }

    /// Removes the value under `key`, returning it.
    pub fn remove(&mut self, key: &String) -> (r: Option<V>)
        ensures
            final(self).contents() == old(self).contents().remove(key@),
            match r {
                Some(v) => old(self).contents().contains_key(key@) && v == old(self).contents()[key@],
                None => !old(self).contents().contains_key(key@),
            },
    {
        proof {
            use_type_invariant(&*self);
        }
        let ghost before = *self;
        match self.find(key) {
            Some(i) => {
                proof {
                    before.lemma_entry(i as int);
                }
                let ghost k = key@;
                let ghost last = (before.entries@.len() - 1) as int;
                let mut entries: Vec<(String, V)> = Vec::new();
                std::mem::swap(&mut entries, &mut self.entries);
                let (_, v) = entries.swap_remove(i);
                proof {
                    assert forall|a: int, b: int|
                        0 <= a < b < entries@.len() implies #[trigger] entries@[a].0@
                        != #[trigger] entries@[b].0@ by {
                        let a0 = if a == i { last } else { a };
                        let b0 = if b == i { last } else { b };
                        if a0 < b0 {
                            assert(before.entries@[a0].0@ != before.entries@[b0].0@);
                        } else {
                            assert(before.entries@[b0].0@ != before.entries@[a0].0@);
                        }
                    }
                }
                self.entries = entries;
                proof {
                    assert forall|a: int, b: int|
                        0 <= a < b < self.entries@.len() implies #[trigger] self.entries@[a].0@
                        != #[trigger] self.entries@[b].0@ by {
                        let a0 = if a == i { last } else { a };
                        let b0 = if b == i { last } else { b };
                        if a0 < b0 {
                            assert(before.entries@[a0].0@ != before.entries@[b0].0@);
                        } else {
                            assert(before.entries@[b0].0@ != before.entries@[a0].0@);
                        }
                    }
                    assert forall|k2: Seq<char>|
                        #[trigger] self.contents().contains_key(k2) == before.contents().remove(
                            k,
                        ).contains_key(k2) by {
                        if exists|j: int| self.has_key_at(k2, j) {
                            let j = choose|j: int| self.has_key_at(k2, j);
                            let j0 = if j == i { last } else { j };
                            assert(before.has_key_at(k2, j0));
                            if k2 == k {
                                if j0 < i {
                                    assert(before.entries@[j0].0@ != before.entries@[i as int].0@);
                                } else if i < j0 {
                                    assert(before.entries@[i as int].0@ != before.entries@[j0].0@);
                                }
                            }
                        }
                        if k2 != k && exists|j: int| before.has_key_at(k2, j) {
                            let j = choose|j: int| before.has_key_at(k2, j);
                            assert(j != i);
                            if j == last {
                                assert(self.has_key_at(k2, i as int));
                            } else {
                                assert(self.has_key_at(k2, j));
                            }
                        }
                    }
                    assert forall|k2: Seq<char>| #[trigger]
                        self.contents().contains_key(k2) implies self.contents()[k2]
                        == before.contents().remove(k)[k2] by {
                        let j = choose|j: int| self.has_key_at(k2, j);
                        self.lemma_entry(j);
                        let j0 = if j == i { last } else { j };
                        before.lemma_entry(j0);
                    }
                    assert(self.contents() =~= before.contents().remove(k));
                }
                Some(v)
            },
            None => {
                proof {
                    assert(self.contents() =~= before.contents().remove(key@));
                }
                None
            },
        }
    }
}

} // verus!
