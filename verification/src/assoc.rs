//! Sequences of key-value pairs read as maps: the model behind the registry
//! and the ledger, which keep their entries in key order.

use vstd::prelude::*;

verus! {

/// The map built from `pairs` by inserting one pair after the other, so that
/// of two pairs with the same key the later one stays.
pub open spec fn to_map<K, V>(pairs: Seq<(K, V)>) -> Map<K, V>
    decreases pairs.len(),
{
    if pairs.len() == 0 {
        Map::empty()
    } else {
        to_map(pairs.drop_last()).insert(pairs.last().0, pairs.last().1)
    }
}

/// Some pair of `pairs` has the key `k`.
pub open spec fn has_key<K, V>(pairs: Seq<(K, V)>, k: K) -> bool {
    exists|i: int| 0 <= i < pairs.len() && (#[trigger] pairs[i]).0 == k
}

/// No key occurs twice in `pairs`.
pub open spec fn distinct_keys<K, V>(pairs: Seq<(K, V)>) -> bool {
    forall|i: int, j: int|
        0 <= i < j < pairs.len() ==> (#[trigger] pairs[i]).0 != (#[trigger] pairs[j]).0
}

/// The keys of the map are the keys of the pairs.
pub proof fn lemma_to_map_keys<K, V>(pairs: Seq<(K, V)>, k: K)
    ensures
        to_map(pairs).contains_key(k) <==> has_key(pairs, k),
    decreases pairs.len(),
{
    if pairs.len() > 0 {
        let rest = pairs.drop_last();
        let last = pairs.last();
        lemma_to_map_keys(rest, k);
        if has_key(pairs, k) {
            let i = choose|i: int| 0 <= i < pairs.len() && (#[trigger] pairs[i]).0 == k;
            if i < rest.len() {
                assert(rest[i].0 == k);
            }
        }
        if has_key(rest, k) {
            let i = choose|i: int| 0 <= i < rest.len() && (#[trigger] rest[i]).0 == k;
            assert(pairs[i].0 == k);
        }
        if last.0 == k {
            assert(pairs[pairs.len() - 1].0 == k);
        }
    }
}

/// Where no key occurs twice, the map holds each pair's value under its key.
pub proof fn lemma_to_map_value<K, V>(pairs: Seq<(K, V)>, i: int)
    requires
        distinct_keys(pairs),
        0 <= i < pairs.len(),
    ensures
        to_map(pairs).contains_key(pairs[i].0),
        to_map(pairs)[pairs[i].0] == pairs[i].1,
    decreases pairs.len(),
{
    let rest = pairs.drop_last();
    if i < pairs.len() - 1 {
        assert(distinct_keys(rest)) by {
            assert forall|a: int, b: int| 0 <= a < b < rest.len() implies (#[trigger] rest[a]).0
                != (#[trigger] rest[b]).0 by {
                assert(pairs[a].0 != pairs[b].0);
            }
        }
        lemma_to_map_value(rest, i);
        assert(pairs[i].0 != pairs[pairs.len() - 1].0);
    }
}

/// Appending a pair inserts it into the map.
pub proof fn lemma_to_map_push<K, V>(pairs: Seq<(K, V)>, k: K, v: V)
    ensures
        to_map(pairs.push((k, v))) == to_map(pairs).insert(k, v),
{
    assert(pairs.push((k, v)).drop_last() =~= pairs);
}

/// Two sequences without repeated keys that hold the same pairs, in whatever
/// order, stand for the same map.
pub proof fn lemma_to_map_same_pairs<K, V>(a: Seq<(K, V)>, b: Seq<(K, V)>)
    requires
        distinct_keys(a),
        distinct_keys(b),
        forall|i: int| 0 <= i < a.len() ==> b.contains(#[trigger] a[i]),
        forall|j: int| 0 <= j < b.len() ==> a.contains(#[trigger] b[j]),
    ensures
        to_map(a) == to_map(b),
{
    assert forall|k: K| to_map(a).contains_key(k) == to_map(b).contains_key(k) by {
        lemma_to_map_keys(a, k);
        lemma_to_map_keys(b, k);
        if has_key(a, k) {
            let i = choose|i: int| 0 <= i < a.len() && (#[trigger] a[i]).0 == k;
            assert(b.contains(a[i]));
            let j = choose|j: int| 0 <= j < b.len() && b[j] == a[i];
            assert(b[j].0 == k);
        }
        if has_key(b, k) {
            let j = choose|j: int| 0 <= j < b.len() && (#[trigger] b[j]).0 == k;
            assert(a.contains(b[j]));
            let i = choose|i: int| 0 <= i < a.len() && a[i] == b[j];
            assert(a[i].0 == k);
        }
    }
    assert forall|k: K| to_map(a).contains_key(k) implies to_map(a)[k] == to_map(b)[k] by {
        lemma_to_map_keys(a, k);
        let i = choose|i: int| 0 <= i < a.len() && (#[trigger] a[i]).0 == k;
        assert(b.contains(a[i]));
        let j = choose|j: int| 0 <= j < b.len() && b[j] == a[i];
        lemma_to_map_value(a, i);
        lemma_to_map_value(b, j);
    }
    assert(to_map(a) =~= to_map(b));
}

/// Putting a pair with a new key anywhere into the sequence inserts it into
/// the map.
pub proof fn lemma_to_map_insert<K, V>(pairs: Seq<(K, V)>, at: int, k: K, v: V)
    requires
        distinct_keys(pairs),
        !has_key(pairs, k),
        0 <= at <= pairs.len(),
    ensures
        distinct_keys(pairs.insert(at, (k, v))),
        to_map(pairs.insert(at, (k, v))) == to_map(pairs).insert(k, v),
{
    let a = pairs.insert(at, (k, v));
    let b = pairs.push((k, v));
    assert forall|i: int, j: int| 0 <= i < j < a.len() implies (#[trigger] a[i]).0 != (
    #[trigger] a[j]).0 by {
        let oi = if i < at { i } else { i - 1 };
        let oj = if j < at { j } else { j - 1 };
        if i == at {
            assert(pairs[oj].0 != k);
        } else if j == at {
            assert(pairs[oi].0 != k);
        } else {
            assert(pairs[oi].0 != pairs[oj].0);
        }
    }
    assert forall|i: int, j: int| 0 <= i < j < b.len() implies (#[trigger] b[i]).0 != (
    #[trigger] b[j]).0 by {
        if j == pairs.len() {
            assert(pairs[i].0 != k);
        } else {
            assert(pairs[i].0 != pairs[j].0);
        }
    }
    assert forall|i: int| 0 <= i < a.len() implies b.contains(#[trigger] a[i]) by {
        if i < at {
            assert(b[i] == a[i]);
        } else if i == at {
            assert(b[pairs.len() as int] == a[i]);
        } else {
            assert(b[i - 1] == a[i]);
        }
    }
    assert forall|j: int| 0 <= j < b.len() implies a.contains(#[trigger] b[j]) by {
        if j == pairs.len() {
            assert(a[at] == b[j]);
        } else if j < at {
            assert(a[j] == b[j]);
        } else {
            assert(a[j + 1] == b[j]);
        }
    }
    lemma_to_map_same_pairs(a, b);
    lemma_to_map_push(pairs, k, v);
}

/// Taking a pair out of a sequence without repeated keys removes its key
/// from the map.
pub proof fn lemma_to_map_remove<K, V>(pairs: Seq<(K, V)>, at: int)
    requires
        distinct_keys(pairs),
        0 <= at < pairs.len(),
    ensures
        distinct_keys(pairs.remove(at)),
        !has_key(pairs.remove(at), pairs[at].0),
        to_map(pairs.remove(at)) == to_map(pairs).remove(pairs[at].0),
{
    let rest = pairs.remove(at);
    let k = pairs[at].0;
    let v = pairs[at].1;
    assert forall|i: int, j: int| 0 <= i < j < rest.len() implies (#[trigger] rest[i]).0 != (
    #[trigger] rest[j]).0 by {
        let oi = if i < at { i } else { i + 1 };
        let oj = if j < at { j } else { j + 1 };
        assert(pairs[oi].0 != pairs[oj].0);
    }
    assert(!has_key(rest, k)) by {
        if has_key(rest, k) {
            let i = choose|i: int| 0 <= i < rest.len() && (#[trigger] rest[i]).0 == k;
            let oi = if i < at { i } else { i + 1 };
            assert(pairs[oi].0 == k);
            if oi < at {
                assert(pairs[oi].0 != pairs[at].0);
            } else {
                assert(pairs[at].0 != pairs[oi].0);
            }
        }
    }
    assert(rest.insert(at, (k, v)) =~= pairs);
    lemma_to_map_insert(rest, at, k, v);
    lemma_to_map_keys(rest, k);
    assert(to_map(pairs).remove(k) =~= to_map(rest));
}

/// Replacing the value of a pair replaces it in the map.
pub proof fn lemma_to_map_update<K, V>(pairs: Seq<(K, V)>, at: int, v: V)
    requires
        distinct_keys(pairs),
        0 <= at < pairs.len(),
    ensures
        distinct_keys(pairs.update(at, (pairs[at].0, v))),
        to_map(pairs.update(at, (pairs[at].0, v))) == to_map(pairs).insert(pairs[at].0, v),
{
    let k = pairs[at].0;
    let rest = pairs.remove(at);
    lemma_to_map_remove(pairs, at);
    lemma_to_map_insert(rest, at, k, v);
    assert(rest.insert(at, (k, v)) =~= pairs.update(at, (k, v)));
    assert(to_map(pairs).remove(k).insert(k, v) =~= to_map(pairs).insert(k, v));
}

} // verus!
