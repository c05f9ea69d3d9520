//! A table from flow keys to values: per-flow state of the modifiers.
//!
//! Entries are kept in a vector in which no key occurs twice; lookups scan it.
use vstd::prelude::*;
use crate::flows::FlowKey;

verus! {

/// A finite map from flow keys to values.
#[verifier::reject_recursive_types(V)]
pub struct FlowTable<V> {
    entries: Vec<(FlowKey, V)>,
}

impl<V> FlowTable<V> {
    /// No key occurs twice among the entries.
    #[verifier::type_invariant]
    closed spec fn keys_unique(self) -> bool {
        forall|i: int, j: int|
            0 <= i < j < self.entries@.len() ==> #[trigger] self.entries@[i].0
                != #[trigger] self.entries@[j].0
    }

    closed spec fn has_at(self, k: FlowKey, i: int) -> bool {
        0 <= i < self.entries@.len() && self.entries@[i].0 == k
    }

    /// The keys present in the table.
    pub closed spec fn contains(self, k: FlowKey) -> bool {
        exists|i: int| self.has_at(k, i)
    }

    /// The value held for a key that is present.
    pub closed spec fn value(self, k: FlowKey) -> V {
        self.entries@[choose|i: int| self.has_at(k, i)].1
    }
}

impl<V> View for FlowTable<V> {
    type V = Map<FlowKey, V>;

    open spec fn view(&self) -> Map<FlowKey, V> {
        Map::new(|k: FlowKey| self.contains(k), |k: FlowKey| self.value(k))
    }
}

impl<V> FlowTable<V> {
    /// An empty table.
    pub fn new() -> (t: Self)
        ensures
            t@ == Map::<FlowKey, V>::empty(),
    {
        let t = FlowTable { entries: Vec::new() };
        assert(t@ =~= Map::<FlowKey, V>::empty());
        t
    }

    /// The index of the entry for `k`, if any.
    fn position(&self, k: &FlowKey) -> (r: Option<usize>)
        ensures
            match r {
                Some(i) => self.has_at(*k, i as int),
                None => !self.contains(*k),
            },
    {
        let mut i: usize = 0;
        while i < self.entries.len()
            invariant
                i <= self.entries@.len(),
                forall|j: int| 0 <= j < i ==> self.entries@[j].0 != *k,
            decreases self.entries@.len() - i,
        {
            if self.entries[i].0 == *k {
                return Some(i);
            }
            i = i + 1;
        }
        None
    }

    proof fn lemma_value_at(&self, k: FlowKey, i: int)
        requires
            self.keys_unique(),
            self.has_at(k, i),
        ensures
            self.contains(k),
            self.value(k) == self.entries@[i].1,
    {
        let j = choose|j: int| self.has_at(k, j);
        assert(self.has_at(k, j));
        if i < j {
            assert(self.entries@[i].0 != self.entries@[j].0);
        } else if j < i {
            assert(self.entries@[j].0 != self.entries@[i].0);
        }
    }

    /// The value held for `k`, if any.
    pub fn get(&self, k: &FlowKey) -> (r: Option<&V>)
        ensures
            match r {
                Some(v) => self@.contains_key(*k) && *v == self@[*k],
                None => !self@.contains_key(*k),
            },
    {
        match self.position(k) {
            Some(i) => {
                proof {
                    use_type_invariant(self);
                    self.lemma_value_at(*k, i as int);
                }
                Some(&self.entries[i].1)
            },
            None => None,
        }
    }

    /// Holds `v` for `k`, replacing any value it had.
    pub fn insert(&mut self, k: FlowKey, v: V)
        ensures
            final(self)@ == old(self)@.insert(k, v),
    {
        proof {
            use_type_invariant(&*self);
        }
        let ghost old_self = *self;
        let ghost mut at: int = 0;
        match self.position(&k) {
            Some(i) => {
                let mut entries = Vec::new();
                std::mem::swap(&mut entries, &mut self.entries);
                entries.set(i, (k, v));
                proof {
                    at = i as int;
                }
                proof {
                    assert forall|a: int, b: int|
                        0 <= a < b < entries@.len() implies #[trigger] entries@[a].0
                            != #[trigger] entries@[b].0 by {
                        assert(old_self.entries@[a].0 != old_self.entries@[b].0);
                    }
                }
                self.entries = entries;
            },
            None => {
                let mut entries = Vec::new();
                std::mem::swap(&mut entries, &mut self.entries);
                entries.push((k, v));
                proof {
                    at = entries@.len() - 1;
                    assert forall|a: int, b: int|
                        0 <= a < b < entries@.len() implies #[trigger] entries@[a].0
                            != #[trigger] entries@[b].0 by {
                        if b == entries@.len() - 1 {
                            assert(!old_self.has_at(k, a));
                        } else {
                            assert(old_self.entries@[a].0 != old_self.entries@[b].0);
                        }
                    }
                }
                self.entries = entries;
            },
        }
        proof {
            use_type_invariant(&*self);
            let s = *self;
            assert forall|key: FlowKey| #[trigger] s@.contains_key(key) == old_self@.insert(
                k,
                v,
            ).contains_key(key) by {
                if key != k {
                    if s.contains(key) {
                        let j = choose|j: int| s.has_at(key, j);
                        assert(old_self.has_at(key, j));
                    }
                    if old_self.contains(key) {
                        let j = choose|j: int| old_self.has_at(key, j);
                        assert(s.has_at(key, j));
                    }
                } else {
                    let n = s.entries@.len();
                    if old_self.contains(k) {
                        let j = choose|j: int| old_self.has_at(k, j);
                        assert(s.has_at(k, j));
                    } else {
                        assert(s.has_at(k, n - 1));
                    }
                }
            }
            assert forall|key: FlowKey| #[trigger] s@.contains_key(key) implies s@[key]
                == old_self@.insert(k, v)[key] by {
                if key != k {
                    let j = choose|j: int| s.has_at(key, j);
                    assert(s.has_at(key, j));
                    s.lemma_value_at(key, j);
                    assert(old_self.has_at(key, j));
                    old_self.lemma_value_at(key, j);
                } else {
                    assert(s.has_at(k, at));
                    s.lemma_value_at(k, at);
                }
            }
            assert(s@ =~= old_self@.insert(k, v));
        }
    }

    /// Takes the value held for `k` out of the table.
    pub fn remove(&mut self, k: &FlowKey) -> (r: Option<V>)
        ensures
            final(self)@ == old(self)@.remove(*k),
            r == (if old(self)@.contains_key(*k) { Some(old(self)@[*k]) } else { None::<V> }),
    {
        proof {
            use_type_invariant(&*self);
        }
        let ghost old_self = *self;
        match self.position(k) {
            Some(i) => {
                let mut entries = Vec::new();
                std::mem::swap(&mut entries, &mut self.entries);
                let (_, v) = entries.remove(i);
                proof {
                    old_self.lemma_value_at(*k, i as int);
                    assert forall|a: int, b: int|
                        0 <= a < b < entries@.len() implies #[trigger] entries@[a].0
                            != #[trigger] entries@[b].0 by {
                        let oa = if a < i { a } else { a + 1 };
                        let ob = if b < i { b } else { b + 1 };
                        assert(entries@[a] == old_self.entries@[oa]);
                        assert(entries@[b] == old_self.entries@[ob]);
                        assert(old_self.entries@[oa].0 != old_self.entries@[ob].0);
                    }
                }
                self.entries = entries;
                proof {
                    use_type_invariant(&*self);
                    let s = *self;
                    assert forall|key: FlowKey| #[trigger] s@.contains_key(key)
                        == old_self@.remove(*k).contains_key(key) by {
                        if s.contains(key) {
                            let j = choose|j: int| s.has_at(key, j);
                            let oj = if j < i { j } else { j + 1 };
                            assert(old_self.has_at(key, oj));
                            if key == *k {
                                assert(old_self.entries@[oj].0 == old_self.entries@[i as int].0);
                                if oj < i {
                                    assert(old_self.entries@[oj].0 != old_self.entries@[i as int].0);
                                } else {
                                    assert(old_self.entries@[i as int].0 != old_self.entries@[oj].0);
                                }
                            }
                        }
                        if key != *k && old_self.contains(key) {
                            let j = choose|j: int| old_self.has_at(key, j);
                            assert(j != i);
                            let nj = if j < i { j } else { j - 1 };
                            assert(s.has_at(key, nj));
                        }
                    }
                    assert forall|key: FlowKey| #[trigger] s@.contains_key(key) implies s@[key]
                        == old_self@.remove(*k)[key] by {
                        let j = choose|j: int| s.has_at(key, j);
                        assert(s.has_at(key, j));
                        s.lemma_value_at(key, j);
                        let oj = if j < i { j } else { j + 1 };
                        assert(old_self.has_at(key, oj));
                        old_self.lemma_value_at(key, oj);
                    }
                    assert(s@ =~= old_self@.remove(*k));
                }
                Some(v)
            },
            None => {
                assert(self@ =~= old_self@.remove(*k));
                None
            },
        }
    }
}

} // verus!
