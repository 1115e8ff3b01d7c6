use vstd::prelude::*;

verus! {

// A sequence of key/value pairs with pairwise distinct keys is the
// representation every finite map of this crate uses; these functions give
// the sequence its meaning as a `Map` and relate the sequence edits the
// executable code performs to `Map` operations.

/// Whether some pair of the sequence carries the key.
pub open spec fn contains_key<K, V>(s: Seq<(K, V)>, k: K) -> bool {
    exists|i: int| 0 <= i < s.len() && s[i].0 == k
}

/// The index of a pair carrying the key.
pub open spec fn index_of<K, V>(s: Seq<(K, V)>, k: K) -> int {
    choose|i: int| 0 <= i < s.len() && s[i].0 == k
}

/// No two pairs of the sequence carry the same key.
pub open spec fn distinct_keys<K, V>(s: Seq<(K, V)>) -> bool {
    forall|i: int, j: int| 0 <= i < j < s.len() ==> s[i].0 != s[j].0
}

/// The finite map the sequence stands for.
pub open spec fn assoc_map<K, V>(s: Seq<(K, V)>) -> Map<K, V> {
    Map::new(|k: K| contains_key(s, k), |k: K| s[index_of(s, k)].1)
}

/// Each pair of a distinct-keyed sequence is in the map, under its own key.
pub proof fn lemma_at_index<K, V>(s: Seq<(K, V)>, i: int)
    requires
        distinct_keys(s),
        0 <= i < s.len(),
    ensures
        contains_key(s, s[i].0),
        index_of(s, s[i].0) == i,
        assoc_map(s).dom().contains(s[i].0),
        assoc_map(s)[s[i].0] == s[i].1,
{
    assert(0 <= i < s.len() && s[i].0 == s[i].0);
    let j = index_of(s, s[i].0);
    assert(0 <= j < s.len() && s[j].0 == s[i].0);
    if i != j {
        assert(false);
    }
}

/// Overwriting the value of one pair updates the map at that pair's key.
pub proof fn lemma_update<K, V>(s: Seq<(K, V)>, i: int, v: V)
    requires
        distinct_keys(s),
        0 <= i < s.len(),
    ensures
        distinct_keys(s.update(i, (s[i].0, v))),
        assoc_map(s.update(i, (s[i].0, v))) == assoc_map(s).insert(s[i].0, v),
{
    let k = s[i].0;
    let s2 = s.update(i, (k, v));
    assert(forall|m: int| 0 <= m < s.len() ==> s2[m].0 == s[m].0);
    assert forall|k2: K| #[trigger] contains_key(s2, k2) implies contains_key(s, k2) by {
        let m = choose|m: int| 0 <= m < s2.len() && s2[m].0 == k2;
        assert(s[m].0 == k2);
    }
    assert forall|k2: K| #[trigger] contains_key(s, k2) implies contains_key(s2, k2) by {
        let m = choose|m: int| 0 <= m < s.len() && s[m].0 == k2;
        assert(s2[m].0 == k2);
    }
    assert forall|k2: K| #[trigger] contains_key(s2, k2) implies assoc_map(s2)[k2] == assoc_map(
        s,
    ).insert(k, v)[k2] by {
        let m = index_of(s2, k2);
        assert(0 <= m < s2.len() && s2[m].0 == k2);
        lemma_at_index(s2, m);
        lemma_at_index(s, m);
        if m == i {
            assert(k2 == k);
            assert(s2[m].1 == v);
        } else {
            assert(k2 != k);
            assert(s2[m].1 == s[m].1);
        }
    }
    assert(contains_key(s2, k)) by {
        assert(s2[i].0 == k);
    }
    assert(assoc_map(s2) =~= assoc_map(s).insert(k, v));
}

/// Removing one pair removes that pair's key from the map.
pub proof fn lemma_remove<K, V>(s: Seq<(K, V)>, i: int)
    requires
        distinct_keys(s),
        0 <= i < s.len(),
    ensures
        distinct_keys(s.remove(i)),
        assoc_map(s.remove(i)) == assoc_map(s).remove(s[i].0),
{
    let k = s[i].0;
    let s2 = s.remove(i);
    s.remove_ensures(i);
    assert forall|m: int, n: int| 0 <= m < n < s2.len() implies s2[m].0 != s2[n].0 by {
        let m0 = if m < i { m } else { m + 1 };
        let n0 = if n < i { n } else { n + 1 };
        assert(s2[m] == s[m0]);
        assert(s2[n] == s[n0]);
    }
    assert forall|k2: K| #[trigger] contains_key(s2, k2) implies contains_key(s, k2) && k2 != k by {
        let m = choose|m: int| 0 <= m < s2.len() && s2[m].0 == k2;
        let m0 = if m < i { m } else { m + 1 };
        assert(s2[m] == s[m0]);
        assert(s[m0].0 == k2);
        if k2 == k {
            assert(s[i].0 == s[m0].0);
            assert(i != m0);
            assert(false);
        }
    }
    assert forall|k2: K| #[trigger] contains_key(s, k2) && k2 != k implies contains_key(
        s2,
        k2,
    ) by {
        let m = choose|m: int| 0 <= m < s.len() && s[m].0 == k2;
        assert(m != i);
        let m2 = if m < i { m } else { m - 1 };
        assert(s2[m2] == s[m]);
    }
    assert forall|k2: K| #[trigger] contains_key(s2, k2) implies assoc_map(s2)[k2] == assoc_map(
        s,
    )[k2] by {
        let m = index_of(s2, k2);
        assert(0 <= m < s2.len() && s2[m].0 == k2);
        lemma_at_index(s2, m);
        let m0 = if m < i { m } else { m + 1 };
        assert(s2[m] == s[m0]);
        lemma_at_index(s, m0);
    }
    assert(assoc_map(s2) =~= assoc_map(s).remove(k));
}

/// Inserting a pair with a fresh key at any position inserts it into the map.
pub proof fn lemma_insert_at<K, V>(s: Seq<(K, V)>, i: int, k: K, v: V)
    requires
        distinct_keys(s),
        !contains_key(s, k),
        0 <= i <= s.len(),
    ensures
        distinct_keys(s.insert(i, (k, v))),
        assoc_map(s.insert(i, (k, v))) == assoc_map(s).insert(k, v),
{
    let s2 = s.insert(i, (k, v));
    s.insert_ensures(i, (k, v));
    assert forall|m: int, n: int| 0 <= m < n < s2.len() implies s2[m].0 != s2[n].0 by {
        if m == i {
            assert(s2[n] == s[n - 1]);
            assert(s2[m].0 == k);
        } else if n == i {
            assert(s2[m] == s[m]);
            assert(s2[n].0 == k);
        } else {
            let m0 = if m < i { m } else { m - 1 };
            let n0 = if n < i { n } else { n - 1 };
            assert(s2[m] == s[m0]);
            assert(s2[n] == s[n0]);
        }
    }
    assert forall|k2: K| #[trigger]
        contains_key(s2, k2) implies contains_key(s, k2) || k2 == k by {
        let m = choose|m: int| 0 <= m < s2.len() && s2[m].0 == k2;
        if m != i {
            let m0 = if m < i { m } else { m - 1 };
            assert(s2[m] == s[m0]);
            assert(s[m0].0 == k2);
        }
    }
    assert forall|k2: K| #[trigger] contains_key(s, k2) implies contains_key(s2, k2) by {
        let m = choose|m: int| 0 <= m < s.len() && s[m].0 == k2;
        let m2 = if m < i { m } else { m + 1 };
        assert(s2[m2] == s[m]);
    }
    assert(s2[i].0 == k);
    assert(contains_key(s2, k));
    assert forall|k2: K| #[trigger] contains_key(s2, k2) && k2 != k implies assoc_map(s2)[k2]
        == assoc_map(s)[k2] by {
        let m = index_of(s2, k2);
        assert(0 <= m < s2.len() && s2[m].0 == k2);
        lemma_at_index(s2, m);
        assert(m != i);
        let m0 = if m < i { m } else { m - 1 };
        assert(s2[m] == s[m0]);
        lemma_at_index(s, m0);
    }
    assert(assoc_map(s2)[k] == v) by {
        lemma_at_index(s2, i);
    }
    assert(assoc_map(s2) =~= assoc_map(s).insert(k, v));
}

/// The empty sequence stands for the empty map.
pub proof fn lemma_empty<K, V>()
    ensures
        distinct_keys(Seq::<(K, V)>::empty()),
        assoc_map(Seq::<(K, V)>::empty()) == Map::<K, V>::empty(),
{
    assert(assoc_map(Seq::<(K, V)>::empty()) =~= Map::<K, V>::empty());
}

} // verus!
