//! Association-table reasoning shared by the store's four entity families.
//!
//! Every table is a sequence of rows with a key projection; rows are unique
//! per key.  `lookup` is the abstract read: contracts of the store speak of
//! what `lookup` yields before and after a write.

use vstd::prelude::*;

verus! {

/// No two rows of `t` share a key.
pub open spec fn unique_keys<T, K>(t: Seq<T>, key: spec_fn(T) -> K) -> bool {
    forall|i: int, j: int| 0 <= i < j < t.len() ==> key(t[i]) != key(t[j])
}

/// No row of `t` carries the key `k`.
pub open spec fn absent<T, K>(t: Seq<T>, key: spec_fn(T) -> K, k: K) -> bool {
    forall|i: int| 0 <= i < t.len() ==> key(#[trigger] t[i]) != k
}

/// The row of `t` carrying the key `k`, if any (the last such row; under
/// `unique_keys` there is at most one).
pub open spec fn lookup<T, K>(t: Seq<T>, key: spec_fn(T) -> K, k: K) -> Option<T>
    decreases t.len(),
{
    if t.len() == 0 {
        None
    } else if key(t.last()) == k {
        Some(t.last())
    } else {
        lookup(t.drop_last(), key, k)
    }
}

/// `lookup` misses exactly when no row carries the key.
pub proof fn lemma_lookup_none<T, K>(t: Seq<T>, key: spec_fn(T) -> K, k: K)
    ensures
        lookup(t, key, k) is None <==> absent(t, key, k),
    decreases t.len(),
{
    if t.len() > 0 {
        lemma_lookup_none(t.drop_last(), key, k);
        assert(forall|i: int| 0 <= i < t.len() - 1 ==> #[trigger] t.drop_last()[i] == t[i]);
        if absent(t.drop_last(), key, k) && key(t.last()) != k {
            assert(forall|i: int| 0 <= i < t.len() ==> key(#[trigger] t[i]) != k) by {
                assert(forall|i: int| 0 <= i < t.len() - 1 ==> t[i] == t.drop_last()[i]);
            }
        }
    }
}

/// Under unique keys, `lookup` of the key of row `i` yields row `i`.
pub proof fn lemma_lookup_at<T, K>(t: Seq<T>, key: spec_fn(T) -> K, i: int)
    requires
        unique_keys(t, key),
        0 <= i < t.len(),
    ensures
        lookup(t, key, key(t[i])) == Some(t[i]),
    decreases t.len(),
{
    let k = key(t[i]);
    if i == t.len() - 1 {
    } else {
        assert(key(t.last()) != k);
        assert(forall|p: int| 0 <= p < t.len() - 1 ==> #[trigger] t.drop_last()[p] == t[p]);
        assert(unique_keys(t.drop_last(), key));
        lemma_lookup_at(t.drop_last(), key, i);
    }
}

/// Appending a row changes `lookup` only at the appended key.
pub proof fn lemma_lookup_push<T, K>(t: Seq<T>, key: spec_fn(T) -> K, e: T, k: K)
    ensures
        lookup(t.push(e), key, k) == (if key(e) == k {
            Some(e)
        } else {
            lookup(t, key, k)
        }),
{
    assert(t.push(e).last() == e);
    assert(t.push(e).drop_last() =~= t);
}

/// Replacing row `i` by a row with the same key changes `lookup` only at
/// that key.
pub proof fn lemma_lookup_update<T, K>(t: Seq<T>, key: spec_fn(T) -> K, i: int, e: T, k: K)
    requires
        unique_keys(t, key),
        0 <= i < t.len(),
        key(e) == key(t[i]),
    ensures
        lookup(t.update(i, e), key, k) == (if key(t[i]) == k {
            Some(e)
        } else {
            lookup(t, key, k)
        }),
    decreases t.len(),
{
    let u = t.update(i, e);
    if i == t.len() - 1 {
        assert(u.last() == e);
        assert(u.drop_last() =~= t.drop_last());
    } else {
        assert(u.last() == t.last());
        assert(key(t.last()) != key(t[i]));
        assert(forall|p: int| 0 <= p < t.len() - 1 ==> #[trigger] t.drop_last()[p] == t[p]);
        assert(unique_keys(t.drop_last(), key));
        assert(u.drop_last() =~= t.drop_last().update(i, e));
        lemma_lookup_update(t.drop_last(), key, i, e, k);
    }
}

/// Appending a row with a fresh key preserves key uniqueness.
pub proof fn lemma_unique_push<T, K>(t: Seq<T>, key: spec_fn(T) -> K, e: T)
    requires
        unique_keys(t, key),
        absent(t, key, key(e)),
    ensures
        unique_keys(t.push(e), key),
{
    let u = t.push(e);
    assert forall|i: int, j: int| 0 <= i < j < u.len() implies key(u[i]) != key(u[j]) by {
        if j < t.len() {
            assert(u[i] == t[i] && u[j] == t[j]);
        } else {
            assert(u[j] == e && u[i] == t[i]);
        }
    }
}

/// Replacing a row by one with the same key preserves key uniqueness.
pub proof fn lemma_unique_update<T, K>(t: Seq<T>, key: spec_fn(T) -> K, i: int, e: T)
    requires
        unique_keys(t, key),
        0 <= i < t.len(),
        key(e) == key(t[i]),
    ensures
        unique_keys(t.update(i, e), key),
{
    let u = t.update(i, e);
    assert forall|p: int, q: int| 0 <= p < q < u.len() implies key(u[p]) != key(u[q]) by {
        assert(key(u[p]) == key(t[p]) && key(u[q]) == key(t[q]));
    }
}

} // verus!
