//! Association lists: key/value pairs kept in insertion order and looked up
//! by the first matching key. Every container of the store views as one of
//! these — the row entries of a document, the fields of one entry, and the
//! cells of one row — so the update semantics of the whole store reduce to
//! `assoc_find` / `assoc_set` algebra.

use vstd::prelude::*;

verus! {

/// The value bound to `key`, if any; the first binding wins.
pub open spec fn assoc_find<K, V>(s: Seq<(K, V)>, key: K) -> Option<V>
    decreases s.len(),
{
    if s.len() == 0 {
        None
    } else if s[0].0 == key {
        Some(s[0].1)
    } else {
        assoc_find(s.drop_first(), key)
    }
}

/// Replace the first binding of `key`, or append one if none exists.
pub open spec fn assoc_set<K, V>(s: Seq<(K, V)>, key: K, value: V) -> Seq<(K, V)>
    decreases s.len(),
{
    if s.len() == 0 {
        seq![(key, value)]
    } else if s[0].0 == key {
        seq![(key, value)] + s.drop_first()
    } else {
        seq![s[0]] + assoc_set(s.drop_first(), key, value)
    }
}

/// No key is bound twice.
pub open spec fn assoc_keys_distinct<K, V>(s: Seq<(K, V)>) -> bool {
    forall|i: int, j: int| 0 <= i < j < s.len() ==> s[i].0 != s[j].0
}

/// A binding at index `i`, with no earlier binding of the same key, is the
/// one that `assoc_find` returns.
pub proof fn lemma_assoc_find_present<K, V>(s: Seq<(K, V)>, key: K, i: int)
    requires
        0 <= i < s.len(),
        s[i].0 == key,
        forall|j: int| 0 <= j < i ==> s[j].0 != key,
    ensures
        assoc_find(s, key) == Some(s[i].1),
    decreases s.len(),
{
    if i > 0 {
        lemma_assoc_find_present(s.drop_first(), key, i - 1);
    }
}

/// With no binding of `key` at all, `assoc_find` returns nothing.
pub proof fn lemma_assoc_find_absent<K, V>(s: Seq<(K, V)>, key: K)
    requires
        forall|j: int| 0 <= j < s.len() ==> s[j].0 != key,
    ensures
        assoc_find(s, key) is None,
    decreases s.len(),
{
    if s.len() > 0 {
        lemma_assoc_find_absent(s.drop_first(), key);
    }
}

/// When the first binding of `key` sits at index `i`, `assoc_set` is an
/// in-place update of that index.
pub proof fn lemma_assoc_set_update<K, V>(s: Seq<(K, V)>, key: K, value: V, i: int)
    requires
        0 <= i < s.len(),
        s[i].0 == key,
        forall|j: int| 0 <= j < i ==> s[j].0 != key,
    ensures
        assoc_set(s, key, value) == s.update(i, (key, value)),
    decreases s.len(),
{
    if i == 0 {
        assert(assoc_set(s, key, value) =~= s.update(0, (key, value)));
    } else {
        lemma_assoc_set_update(s.drop_first(), key, value, i - 1);
        assert(assoc_set(s, key, value) =~= s.update(i, (key, value)));
    }
}

/// With no binding of `key`, `assoc_set` appends one at the end.
pub proof fn lemma_assoc_set_append<K, V>(s: Seq<(K, V)>, key: K, value: V)
    requires
        forall|j: int| 0 <= j < s.len() ==> s[j].0 != key,
    ensures
        assoc_set(s, key, value) == s.push((key, value)),
    decreases s.len(),
{
    if s.len() == 0 {
        assert(assoc_set(s, key, value) =~= s.push((key, value)));
    } else {
        lemma_assoc_set_append(s.drop_first(), key, value);
        assert(assoc_set(s, key, value) =~= s.push((key, value)));
    }
}

/// `assoc_set` keeps keys distinct.
pub proof fn lemma_assoc_set_distinct<K, V>(s: Seq<(K, V)>, key: K, value: V)
    requires
        assoc_keys_distinct(s),
    ensures
        assoc_keys_distinct(assoc_set(s, key, value)),
    decreases s.len(),
{
    if s.len() == 0 {
    } else if s[0].0 == key {
        assert forall|i: int, j: int|
            0 <= i < j < assoc_set(s, key, value).len() implies assoc_set(s, key, value)[i].0
            != assoc_set(s, key, value)[j].0 by {
            assert(assoc_set(s, key, value)[i] == if i == 0 {
                (key, value)
            } else {
                s.drop_first()[i - 1]
            });
        }
    } else {
        lemma_assoc_set_distinct(s.drop_first(), key, value);
        lemma_assoc_set_bound_keys(s.drop_first(), key, value, s[0].0);
        assert forall|i: int, j: int|
            0 <= i < j < assoc_set(s, key, value).len() implies assoc_set(s, key, value)[i].0
            != assoc_set(s, key, value)[j].0 by {
            if i > 0 {
                assert(assoc_set(s, key, value)[i] == assoc_set(s.drop_first(), key, value)[i - 1]);
                assert(assoc_set(s, key, value)[j] == assoc_set(s.drop_first(), key, value)[j - 1]);
            } else {
                assert(assoc_set(s, key, value)[j] == assoc_set(s.drop_first(), key, value)[j - 1]);
            }
        }
    }
}

/// Every key of `assoc_set(s, key, value)` is `key` or a key of `s`.
pub proof fn lemma_assoc_set_bound_keys<K, V>(
    s: Seq<(K, V)>,
    key: K,
    value: V,
    other: K,
)
    requires
        other != key,
        forall|j: int| 0 <= j < s.len() ==> s[j].0 != other,
    ensures
        forall|j: int|
            0 <= j < assoc_set(s, key, value).len() ==> assoc_set(s, key, value)[j].0 != other,
    decreases s.len(),
{
    if s.len() == 0 {
    } else if s[0].0 == key {
    } else {
        lemma_assoc_set_bound_keys(s.drop_first(), key, value, other);
        assert forall|j: int| 0 <= j < assoc_set(s, key, value).len() implies assoc_set(
            s,
            key,
            value,
        )[j].0 != other by {
            if j > 0 {
                assert(assoc_set(s, key, value)[j] == assoc_set(s.drop_first(), key, value)[j - 1]);
            }
        }
    }
}

/// Looking up the key just set yields the value just set.
pub proof fn lemma_assoc_find_set_same<K, V>(s: Seq<(K, V)>, key: K, value: V)
    ensures
        assoc_find(assoc_set(s, key, value), key) == Some(value),
    decreases s.len(),
{
    if s.len() == 0 {
    } else if s[0].0 == key {
    } else {
        lemma_assoc_find_set_same(s.drop_first(), key, value);
        assert(assoc_set(s, key, value).drop_first() =~= assoc_set(s.drop_first(), key, value));
    }
}

/// Setting one key leaves every other key's binding as it was.
pub proof fn lemma_assoc_find_set_other<K, V>(
    s: Seq<(K, V)>,
    key: K,
    value: V,
    other: K,
)
    requires
        other != key,
    ensures
        assoc_find(assoc_set(s, key, value), other) == assoc_find(s, other),
    decreases s.len(),
{
    let t = assoc_set(s, key, value);
    if s.len() == 0 {
        assert(t[0].0 == key);
        assert(t.drop_first() =~= Seq::<(K, V)>::empty());
        assert(assoc_find(t, other) == assoc_find(t.drop_first(), other));
        assert(assoc_find(t.drop_first(), other) is None);
    } else if s[0].0 == key {
        assert(t[0].0 == key);
        assert(t.drop_first() =~= s.drop_first());
        assert(assoc_find(t, other) == assoc_find(t.drop_first(), other));
        assert(assoc_find(s, other) == assoc_find(s.drop_first(), other));
    } else {
        lemma_assoc_find_set_other(s.drop_first(), key, value, other);
        assert(t[0] == s[0]);
        assert(t.drop_first() =~= assoc_set(s.drop_first(), key, value));
        if s[0].0 == other {
            assert(assoc_find(t, other) == Some(s[0].1));
            assert(assoc_find(s, other) == Some(s[0].1));
        } else {
            assert(assoc_find(t, other) == assoc_find(t.drop_first(), other));
            assert(assoc_find(s, other) == assoc_find(s.drop_first(), other));
        }
    }
}

/// Setting the same key twice keeps only the later value.
pub proof fn lemma_assoc_set_set_same<K, V>(s: Seq<(K, V)>, key: K, v1: V, v2: V)
    ensures
        assoc_set(assoc_set(s, key, v1), key, v2) == assoc_set(s, key, v2),
    decreases s.len(),
{
    if s.len() == 0 {
        assert(assoc_set(assoc_set(s, key, v1), key, v2) =~= assoc_set(s, key, v2));
    } else if s[0].0 == key {
        assert(assoc_set(assoc_set(s, key, v1), key, v2) =~= assoc_set(s, key, v2));
    } else {
        lemma_assoc_set_set_same(s.drop_first(), key, v1, v2);
        assert(assoc_set(s, key, v1).drop_first() =~= assoc_set(s.drop_first(), key, v1));
        assert(assoc_set(assoc_set(s, key, v1), key, v2) =~= seq![s[0]] + assoc_set(
            assoc_set(s.drop_first(), key, v1),
            key,
            v2,
        ));
    }
}

/// Drop the first binding of `key`, if any.
pub open spec fn assoc_remove<K, V>(s: Seq<(K, V)>, key: K) -> Seq<(K, V)>
    decreases s.len(),
{
    if s.len() == 0 {
        s
    } else if s[0].0 == key {
        s.drop_first()
    } else {
        seq![s[0]] + assoc_remove(s.drop_first(), key)
    }
}

/// When the first binding of `key` sits at index `i`, `assoc_remove` takes
/// out exactly that index.
pub proof fn lemma_assoc_remove_at<K, V>(s: Seq<(K, V)>, key: K, i: int)
    requires
        0 <= i < s.len(),
        s[i].0 == key,
        forall|j: int| 0 <= j < i ==> s[j].0 != key,
    ensures
        assoc_remove(s, key) == s.remove(i),
    decreases s.len(),
{
    if i == 0 {
        assert(assoc_remove(s, key) =~= s.remove(0));
    } else {
        lemma_assoc_remove_at(s.drop_first(), key, i - 1);
        assert(assoc_remove(s, key) =~= s.remove(i));
    }
}

/// With no binding of `key`, `assoc_remove` changes nothing.
pub proof fn lemma_assoc_remove_absent<K, V>(s: Seq<(K, V)>, key: K)
    requires
        forall|j: int| 0 <= j < s.len() ==> s[j].0 != key,
    ensures
        assoc_remove(s, key) == s,
    decreases s.len(),
{
    if s.len() > 0 {
        lemma_assoc_remove_absent(s.drop_first(), key);
        assert(assoc_remove(s, key) =~= s);
    }
}

} // verus!
