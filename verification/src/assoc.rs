//! Sequences of key-value pairs read as maps: the first pair with a key is
//! the one that counts.

use vstd::prelude::*;

verus! {

/// Position `i` holds the first pair of `s` whose key is `k`.
pub open spec fn first_match<K, V>(s: Seq<(K, V)>, k: K, i: int) -> bool {
    &&& 0 <= i < s.len()
    &&& s[i].0 == k
    &&& forall|j: int| 0 <= j < i ==> (#[trigger] s[j]).0 != k
}

/// The value that `s` holds for `k`.
pub open spec fn lookup<K, V>(s: Seq<(K, V)>, k: K) -> Option<V> {
    if exists|i: int| first_match(s, k, i) {
        Some(s[choose|i: int| first_match(s, k, i)].1)
    } else {
        None
    }
}

/// A key has at most one first pair.
pub proof fn lemma_first_match_unique<K, V>(s: Seq<(K, V)>, k: K, i: int, j: int)
    requires
        first_match(s, k, i),
        first_match(s, k, j),
    ensures
        i == j,
{
    if i < j {
        assert(s[i].0 != k);
    }
    if j < i {
        assert(s[j].0 != k);
    }
}

/// The first pair with a key gives the value of the key.
pub proof fn lemma_lookup_at<K, V>(s: Seq<(K, V)>, k: K, i: int)
    requires
        first_match(s, k, i),
    ensures
        lookup(s, k) == Some(s[i].1),
{
    let j = choose|j: int| first_match(s, k, j);
    lemma_first_match_unique(s, k, i, j);
}

/// A key that no pair carries has no value.
pub proof fn lemma_lookup_absent<K, V>(s: Seq<(K, V)>, k: K)
    requires
        forall|j: int| 0 <= j < s.len() ==> (#[trigger] s[j]).0 != k,
    ensures
        lookup(s, k) is None,
{
}

/// Replacing the value of the first pair with key `k` changes the value of
/// `k` and of no other key.
pub proof fn lemma_lookup_update<K, V>(s: Seq<(K, V)>, k: K, i: int, v: V, other: K)
    requires
        first_match(s, k, i),
    ensures
        lookup(s.update(i, (k, v)), other) == if other == k {
            Some(v)
        } else {
            lookup(s, other)
        },
{
    let t = s.update(i, (k, v));
    assert forall|j: int| first_match(t, other, j) == first_match(s, other, j) by {
        if 0 <= j < s.len() {
            assert(t[j].0 == s[j].0);
            assert(forall|l: int| 0 <= l < j ==> (#[trigger] t[l]).0 == s[l].0);
            if first_match(s, other, j) {
                assert(forall|l: int| 0 <= l < j ==> (#[trigger] t[l]).0 != other);
            }
            if first_match(t, other, j) {
                assert forall|l: int| 0 <= l < j implies (#[trigger] s[l]).0 != other by {
                    assert(t[l].0 == s[l].0);
                }
            }
        }
    }
    if other == k {
        lemma_lookup_at(t, k, i);
    } else if exists|j: int| first_match(s, other, j) {
        let j = choose|j: int| first_match(s, other, j);
        assert(first_match(t, other, j));
        lemma_lookup_at(t, other, j);
        lemma_lookup_at(s, other, j);
    } else {
        assert(forall|j: int| !first_match(t, other, j));
    }
}

/// Appending a pair whose key is new gives that key its value and changes
/// the value of no other key.
pub proof fn lemma_lookup_push<K, V>(s: Seq<(K, V)>, k: K, v: V, other: K)
    requires
        forall|j: int| 0 <= j < s.len() ==> (#[trigger] s[j]).0 != k,
    ensures
        lookup(s.push((k, v)), other) == if other == k {
            Some(v)
        } else {
            lookup(s, other)
        },
{
    let t = s.push((k, v));
    let n = s.len() as int;
    assert(forall|l: int| 0 <= l < n ==> (#[trigger] t[l]) == s[l]);
    if other == k {
        assert(first_match(t, k, n));
        lemma_lookup_at(t, k, n);
    } else {
        assert forall|j: int| first_match(t, other, j) == first_match(s, other, j) by {
            if 0 <= j < n {
                if first_match(s, other, j) {
                    assert(forall|l: int| 0 <= l < j ==> (#[trigger] t[l]).0 != other);
                }
                if first_match(t, other, j) {
                    assert forall|l: int| 0 <= l < j implies (#[trigger] s[l]).0 != other by {
                        assert(t[l] == s[l]);
                    }
                }
            }
        }
        if exists|j: int| first_match(s, other, j) {
            let j = choose|j: int| first_match(s, other, j);
            assert(first_match(t, other, j));
            lemma_lookup_at(t, other, j);
            lemma_lookup_at(s, other, j);
        } else {
            assert(forall|j: int| !first_match(t, other, j));
        }
    }
}

/// Rewriting every value by `g`, keys untouched, rewrites the value of every
/// key by `g`.
pub proof fn lemma_lookup_rewrite<K, V>(
    s: Seq<(K, V)>,
    t: Seq<(K, V)>,
    g: spec_fn(K, V) -> V,
    other: K,
)
    requires
        t.len() == s.len(),
        forall|j: int|
            0 <= j < s.len() ==> (#[trigger] t[j]).0 == s[j].0 && t[j].1 == g(s[j].0, s[j].1),
    ensures
        lookup(t, other) == match lookup(s, other) {
            Some(v) => Some(g(other, v)),
            None => None,
        },
{
    assert forall|j: int| first_match(t, other, j) == first_match(s, other, j) by {
        if 0 <= j < s.len() {
            assert(t[j].0 == s[j].0);
            if first_match(s, other, j) {
                assert forall|l: int| 0 <= l < j implies (#[trigger] t[l]).0 != other by {
                    assert(t[l].0 == s[l].0);
                }
            }
            if first_match(t, other, j) {
                assert forall|l: int| 0 <= l < j implies (#[trigger] s[l]).0 != other by {
                    assert(t[l].0 == s[l].0);
                }
            }
        }
    }
    if exists|j: int| first_match(s, other, j) {
        let j = choose|j: int| first_match(s, other, j);
        assert(first_match(t, other, j));
        lemma_lookup_at(t, other, j);
        lemma_lookup_at(s, other, j);
        assert(t[j].1 == g(s[j].0, s[j].1));
    } else {
        assert(forall|j: int| !first_match(t, other, j));
    }
}

} // verus!
