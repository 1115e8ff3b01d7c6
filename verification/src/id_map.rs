use vstd::prelude::*;
use crate::assoc_list::{assoc_map, contains_key, distinct_keys, lemma_at_index, lemma_empty,
    lemma_insert_at, lemma_remove, lemma_update};
use crate::id::PublicId;

verus! {

/// A finite map from public identities to values, held as a vector of pairs
/// sorted strictly by the identities' addresses. The sorted order makes the
/// representation of a map unique, as a search-tree map's would be.
#[derive(Debug, PartialEq, Eq)]
pub struct IdMap<V> {
    pub entries: Vec<(PublicId, V)>,
}

/// Strictly increasing key order.
pub open spec fn sorted<V>(s: Seq<(PublicId, V)>) -> bool {
    forall|i: int, j: int| 0 <= i < j < s.len() ==> s[i].0.0.0 < s[j].0.0.0
}

impl<V: Copy> IdMap<V> {
    pub open spec fn view(&self) -> Map<PublicId, V> {
        assoc_map(self.entries@)
    }

    pub open spec fn wf(&self) -> bool {
        sorted(self.entries@)
    }

    proof fn lemma_wf_distinct(&self)
        requires
            self.wf(),
        ensures
            distinct_keys(self.entries@),
    {
    }

    pub fn new() -> (r: IdMap<V>)
        ensures
            r.wf(),
            r@ == Map::<PublicId, V>::empty(),
            r.entries@.len() == 0,
    {
        proof {
            lemma_empty::<PublicId, V>();
        }
        IdMap { entries: Vec::new() }
    }

    pub fn contains(&self, id: &PublicId) -> (r: bool)
        requires
            self.wf(),
        ensures
            r == self@.dom().contains(*id),
    {
        let n = self.entries.len();
        let mut i: usize = 0;
        while i < n
            invariant
                n == self.entries@.len(),
                i <= n,
                self.wf(),
                forall|m: int| 0 <= m < i ==> self.entries@[m].0 != *id,
            decreases n - i,
        {
            if self.entries[i].0.0.0 == id.0.0 {
                proof {
                    self.lemma_wf_distinct();
                    lemma_at_index(self.entries@, i as int);
                }
                return true;
            }
            i += 1;
        }
        proof {
            if self@.dom().contains(*id) {
                let m = choose|m: int|
                    0 <= m < self.entries@.len() && self.entries@[m].0 == *id;
                assert(self.entries@[m].0 != *id);
            }
        }
        false
    }

    pub fn get(&self, id: &PublicId) -> (r: Option<V>)
        requires
            self.wf(),
        ensures
            match r {
                Some(v) => self@.dom().contains(*id) && v == self@[*id],
                None => !self@.dom().contains(*id),
            },
    {
        let n = self.entries.len();
        let mut i: usize = 0;
        while i < n
            invariant
                n == self.entries@.len(),
                i <= n,
                self.wf(),
                forall|m: int| 0 <= m < i ==> self.entries@[m].0 != *id,
            decreases n - i,
        {
            if self.entries[i].0.0.0 == id.0.0 {
                proof {
                    self.lemma_wf_distinct();
                    lemma_at_index(self.entries@, i as int);
                }
                return Some(self.entries[i].1);
            }
            i += 1;
        }
        proof {
            if self@.dom().contains(*id) {
                let m = choose|m: int|
                    0 <= m < self.entries@.len() && self.entries@[m].0 == *id;
                assert(self.entries@[m].0 != *id);
            }
        }
        None
    }

    /// Record `v` under `id`, replacing any earlier value. Reports whether the
    /// identity was already present.
    pub fn insert(&mut self, id: PublicId, v: V) -> (had: bool)
        requires
            old(self).wf(),
        ensures
            final(self).wf(),
            final(self)@ == old(self)@.insert(id, v),
            had == old(self)@.dom().contains(id),
    {
        let n = self.entries.len();
        let mut i: usize = 0;
        while i < n && self.entries[i].0.0.0 < id.0.0
            invariant
                n == self.entries@.len(),
                i <= n,
                self.wf(),
                forall|m: int| 0 <= m < i ==> self.entries@[m].0.0.0 < id.0.0,
            decreases n - i,
        {
            i += 1;
        }
        proof {
            self.lemma_wf_distinct();
        }
        if i < n && self.entries[i].0.0.0 == id.0.0 {
            proof {
                lemma_at_index(self.entries@, i as int);
                lemma_update(self.entries@, i as int, v);
                assert(self.entries@[i as int].0 == id);
                assert(self.entries@.update(i as int, (id, v))
                    == self.entries@.update(i as int, (self.entries@[i as int].0, v)));
            }
            let ghost s0 = self.entries@;
            self.entries.remove(i);
            self.entries.insert(i, (id, v));
            proof {
                assert(self.entries@ =~= s0.update(i as int, (id, v)));
                assert forall|m: int, j: int|
                    0 <= m < j < self.entries@.len() implies self.entries@[m].0.0.0
                    < self.entries@[j].0.0.0 by {
                    assert(self.entries@[m].0 == s0[m].0);
                    assert(self.entries@[j].0 == s0[j].0);
                }
            }
            true
        } else {
            proof {
                assert forall|m: int|
                    0 <= m < self.entries@.len() implies self.entries@[m].0 != id by {
                    if m < i {
                    } else if m == i {
                    } else {
                        assert(self.entries@[i as int].0.0.0 < self.entries@[m].0.0.0);
                    }
                }
                assert(!contains_key(self.entries@, id));
                if old(self)@.dom().contains(id) {
                    let m = choose|m: int|
                        0 <= m < self.entries@.len() && self.entries@[m].0 == id;
                    assert(self.entries@[m].0 != id);
                }
                lemma_insert_at(self.entries@, i as int, id, v);
            }
            let ghost s0 = self.entries@;
            self.entries.insert(i, (id, v));
            proof {
                assert(self.entries@ =~= s0.insert(i as int, (id, v)));
                s0.insert_ensures(i as int, (id, v));
                assert forall|m: int, j: int|
                    0 <= m < j < self.entries@.len() implies self.entries@[m].0.0.0
                    < self.entries@[j].0.0.0 by {
                    let m0 = if m < i { m } else { m - 1 };
                    let j0 = if j < i { j } else { j - 1 };
                    if m == i {
                        assert(self.entries@[j] == s0[j - 1]);
                        assert(s0[i as int].0.0.0 <= s0[j - 1].0.0.0);
                    } else if j == i {
                        assert(self.entries@[m] == s0[m]);
                    } else {
                        assert(self.entries@[m] == s0[m0]);
                        assert(self.entries@[j] == s0[j0]);
                    }
                }
            }
            false
        }
    }
}

impl<V: Copy> Clone for IdMap<V> {
    fn clone(&self) -> (r: Self)
        ensures
            r.entries@ == self.entries@,
            r@ == self@,
            self.wf() ==> r.wf(),
    {
        let n = self.entries.len();
        let mut entries: Vec<(PublicId, V)> = Vec::new();
        let mut i: usize = 0;
        while i < n
            invariant
                n == self.entries@.len(),
                i <= n,
                entries@ == self.entries@.subrange(0, i as int),
            decreases n - i,
        {
            entries.push(self.entries[i]);
            proof {
                assert(entries@ =~= self.entries@.subrange(0, i + 1 as int));
            }
            i += 1;
        }
        proof {
            assert(entries@ =~= self.entries@);
        }
        IdMap { entries }
    }
}

} // verus!
