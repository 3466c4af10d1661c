//! Finding a key in a sequence: the position of its first occurrence.

use vstd::prelude::*;

verus! {

/// Whether `i` is the first position at which `keys` holds `k`.
pub open spec fn first_at<K>(keys: Seq<K>, k: K, i: int) -> bool {
    &&& 0 <= i < keys.len()
    &&& keys[i] == k
    &&& forall|j: int| 0 <= j < i ==> keys[j] != k
}

/// The first position at which `keys` holds `k`; meaningful where `keys`
/// contains `k`.
pub open spec fn first_index<K>(keys: Seq<K>, k: K) -> int {
    choose|i: int| first_at(keys, k, i)
}

/// A key that occurs has a first position.
pub proof fn lemma_first_index<K>(keys: Seq<K>, k: K)
    requires
        keys.contains(k),
    ensures
        first_at(keys, k, first_index(keys, k)),
    decreases keys.len(),
{
    let t = keys.drop_last();
    if t.contains(k) {
        lemma_first_index(t, k);
        let i = first_index(t, k);
        assert(first_at(keys, k, i)) by {
            assert(keys[i] == t[i]);
            assert forall|j: int| 0 <= j < i implies keys[j] != k by {
                assert(keys[j] == t[j]);
            }
        }
    } else {
        let w = choose|w: int| 0 <= w < keys.len() && keys[w] == k;
        let last = keys.len() - 1;
        if w < last {
            assert(t[w] == k);
            assert(false);
        }
        assert forall|j: int| 0 <= j < last implies keys[j] != k by {
            if keys[j] == k {
                assert(t[j] == k);
            }
        }
        assert(first_at(keys, k, last));
    }
}

/// The first position of a key is the only one that is first.
pub proof fn lemma_first_unique<K>(keys: Seq<K>, k: K, i: int)
    requires
        first_at(keys, k, i),
    ensures
        first_index(keys, k) == i,
        keys.contains(k),
{
    let c = first_index(keys, k);
    assert(first_at(keys, k, c));
    if c < i {
        assert(keys[c] != k);
    }
    if i < c {
        assert(keys[i] != k);
    }
}

/// Where no key occurs twice, any position of a key is its first.
pub proof fn lemma_only_position<K>(keys: Seq<K>, i: int)
    requires
        keys.no_duplicates(),
        0 <= i < keys.len(),
    ensures
        first_index(keys, keys[i]) == i,
        keys.contains(keys[i]),
{
    assert(first_at(keys, keys[i], i));
    lemma_first_unique(keys, keys[i], i);
}

/// Appending a key that does not occur keeps a sequence free of duplicates.
pub proof fn lemma_push_fresh<K>(keys: Seq<K>, k: K)
    requires
        keys.no_duplicates(),
        !keys.contains(k),
    ensures
        keys.push(k).no_duplicates(),
        forall|x: K| keys.contains(x) ==> keys.push(k).contains(x),
        keys.push(k).contains(k),
        forall|x: K|
            keys.contains(x) ==> first_index(keys.push(k), x) == first_index(keys, x),
{
    let p = keys.push(k);
    assert forall|i: int, j: int| 0 <= i < p.len() && 0 <= j < p.len() && i != j implies p[i]
        != p[j] by {
        if i < keys.len() && j < keys.len() {
        } else if i < keys.len() {
            assert(keys.contains(keys[i]));
        } else {
            assert(keys.contains(keys[j]));
        }
    }
    assert(p[keys.len() as int] == k);
    assert forall|x: K| keys.contains(x) implies p.contains(x) && first_index(p, x)
        == first_index(keys, x) by {
        lemma_first_index(keys, x);
        let i = first_index(keys, x);
        assert(p[i] == x);
        assert(first_at(p, x, i)) by {
            assert forall|j: int| 0 <= j < i implies p[j] != x by {
                assert(p[j] == keys[j]);
            }
        }
        lemma_first_unique(p, x, i);
    }
}

} // verus!
