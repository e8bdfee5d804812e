//! The model of a least-recently-used cache (`lru::LruCache`): its entries,
//! most recently used first, and how each operation changes them.

use vstd::prelude::*;
use lru::LruCache;

verus! {

/// `lru::LruCache`, known to Verus as an opaque type.
#[verifier::external_type_specification]
#[verifier::external_body]
#[verifier::reject_recursive_types(K)]
#[verifier::reject_recursive_types(V)]
#[verifier::reject_recursive_types(S)]
pub struct ExLruCache<K, V, S>(LruCache<K, V, S>);

/// Index of the first entry with key `k`.
pub open spec fn key_index<K, V>(e: Seq<(K, V)>, k: K) -> Option<int>
    decreases e.len(),
{
    if e.len() == 0 {
        None
    } else if e[0].0 == k {
        Some(0)
    } else {
        match key_index(e.drop_first(), k) {
            Some(i) => Some(i + 1),
            None => None,
        }
    }
}

/// Keys are distinct and there are at most `cap` entries.
pub open spec fn lru_wf<K, V>(e: Seq<(K, V)>, cap: nat) -> bool {
    &&& cap > 0
    &&& e.len() <= cap
    &&& forall|i: int, j: int| 0 <= i < j < e.len() ==> e[i].0 != e[j].0
}

/// The value cached under `k`.
pub open spec fn lru_lookup<K, V>(e: Seq<(K, V)>, k: K) -> Option<V> {
    match key_index(e, k) {
        Some(i) => Some(e[i].1),
        None => None,
    }
}

/// Entries after `put(k, v)`: the pair moves to the front; a new key evicts
/// the least recently used entry when the cache is full.
pub open spec fn lru_put<K, V>(e: Seq<(K, V)>, k: K, v: V, cap: nat) -> Seq<(K, V)> {
    match key_index(e, k) {
        Some(i) => seq![(k, v)] + e.remove(i),
        None => if e.len() == cap {
            seq![(k, v)] + e.drop_last()
        } else {
            seq![(k, v)] + e
        },
    }
}

/// Entries after a lookup of `k` that promotes it to most recently used.
pub open spec fn lru_touch<K, V>(e: Seq<(K, V)>, k: K) -> Seq<(K, V)> {
    match key_index(e, k) {
        Some(i) => seq![e[i]] + e.remove(i),
        None => e,
    }
}

pub proof fn lemma_key_index<K, V>(e: Seq<(K, V)>, k: K)
    ensures
        match key_index(e, k) {
            Some(i) => 0 <= i < e.len() && e[i].0 == k && forall|j: int|
                0 <= j < i ==> e[j].0 != k,
            None => forall|j: int| 0 <= j < e.len() ==> e[j].0 != k,
        },
    decreases e.len(),
{
    if e.len() > 0 && e[0].0 != k {
        lemma_key_index(e.drop_first(), k);
        match key_index(e.drop_first(), k) {
            Some(i) => {
                assert forall|j: int| 0 <= j < i + 1 implies e[j].0 != k by {
                    if j > 0 {
                        assert(e[j] == e.drop_first()[j - 1]);
                    }
                }
            },
            None => {
                assert forall|j: int| 0 <= j < e.len() implies e[j].0 != k by {
                    if j > 0 {
                        assert(e[j] == e.drop_first()[j - 1]);
                    }
                }
            },
        }
    }
}

/// Law: a lookup right after `put(k, v)` finds `v`.
pub proof fn law_lookup_after_put<K, V>(e: Seq<(K, V)>, k: K, v: V, cap: nat)
    ensures
        lru_lookup(lru_put(e, k, v, cap), k) == Some(v),
{
    let p = lru_put(e, k, v, cap);
    assert(p[0] == (k, v));
    assert(key_index(p, k) == Some(0int));
}

/// Law: `put` of a key already cached, or into a cache that is not full,
/// leaves every other key's value as it was.
pub proof fn law_put_keeps_others<K, V>(e: Seq<(K, V)>, k: K, v: V, cap: nat, other: K)
    requires
        lru_wf(e, cap),
        other != k,
        lru_lookup(e, k) is Some || e.len() < cap,
    ensures
        lru_lookup(lru_put(e, k, v, cap), other) == lru_lookup(e, other),
{
    lemma_key_index(e, k);
    lemma_key_index(e, other);
    let p = lru_put(e, k, v, cap);
    lemma_key_index(p, other);
    match key_index(e, k) {
        Some(i) => {
            match key_index(e, other) {
                Some(j) => {
                    let jp = if j < i {
                        j + 1
                    } else {
                        j
                    };
                    assert(p[jp] == e[j]);
                    assert(key_index(p, other) == Some(jp)) by {
                        lemma_key_index(p, other);
                        match key_index(p, other) {
                            Some(x) => {
                                if x < jp {
                                    if x == 0 {
                                    } else if x <= i {
                                        assert(p[x] == e[x - 1]);
                                    } else {
                                        assert(p[x] == e[x]);
                                    }
                                } else if x > jp {
                                }
                            },
                            None => {},
                        }
                    }
                },
                None => {
                    assert forall|x: int| 0 <= x < p.len() implies p[x].0 != other by {
                        if x > 0 {
                            if x <= i {
                                assert(p[x] == e[x - 1]);
                            } else {
                                assert(p[x] == e[x]);
                            }
                        }
                    }
                },
            }
        },
        None => {
            assert(p == seq![(k, v)] + e);
            match key_index(e, other) {
                Some(j) => {
                    assert(p[j + 1] == e[j]);
                    match key_index(p, other) {
                        Some(x) => {
                            if x < j + 1 && x > 0 {
                                assert(p[x] == e[x - 1]);
                            }
                        },
                        None => {},
                    }
                },
                None => {
                    assert forall|x: int| 0 <= x < p.len() implies p[x].0 != other by {
                        if x > 0 {
                            assert(p[x] == e[x - 1]);
                        }
                    }
                },
            }
        },
    }
}

/// Law: a lookup changes no cached value, only which entry is most recently
/// used.
pub proof fn law_touch_keeps_values<K, V>(e: Seq<(K, V)>, k: K, other: K, cap: nat)
    requires
        lru_wf(e, cap),
    ensures
        lru_lookup(lru_touch(e, k), other) == lru_lookup(e, other),
        lru_touch(e, k).len() == e.len(),
{
    lemma_key_index(e, k);
    lemma_key_index(e, other);
    let t = lru_touch(e, k);
    lemma_key_index(t, other);
    match key_index(e, k) {
        Some(i) => {
            assert(t == seq![e[i]] + e.remove(i));
            if other == k {
                assert(key_index(t, other) == Some(0int));
            } else {
                match key_index(e, other) {
                    Some(j) => {
                        let jp = if j < i { j + 1 } else { j };
                        assert(t[jp] == e[j]);
                        match key_index(t, other) {
                            Some(x) => {
                                if x < jp && x > 0 {
                                    if x <= i {
                                        assert(t[x] == e[x - 1]);
                                    } else {
                                        assert(t[x] == e[x]);
                                    }
                                }
                            },
                            None => {},
                        }
                    },
                    None => {
                        assert forall|x: int| 0 <= x < t.len() implies t[x].0 != other by {
                            if x > 0 {
                                if x <= i {
                                    assert(t[x] == e[x - 1]);
                                } else {
                                    assert(t[x] == e[x]);
                                }
                            }
                        }
                    },
                }
            }
        },
        None => {},
    }
}

} // verus!
