//! Sequence helpers: selecting rows newest-first, as the store queries
//! ordered by creation do.

use vstd::prelude::*;

verus! {

/// The elements satisfying `pred`, newest (last inserted) first.
pub open spec fn rev_filter<T>(s: Seq<T>, pred: spec_fn(T) -> bool) -> Seq<T>
    decreases s.len(),
{
    if s.len() == 0 {
        Seq::empty()
    } else if pred(s.last()) {
        seq![s.last()] + rev_filter(s.drop_last(), pred)
    } else {
        rev_filter(s.drop_last(), pred)
    }
}

/// Inserts `x` after every element whose key is at most `key(x)`: the stable
/// insertion step of an ordering by key.
pub open spec fn insert_by_key<T>(s: Seq<T>, x: T, key: spec_fn(T) -> int) -> Seq<T>
    decreases s.len(),
{
    if s.len() > 0 && key(s.last()) > key(x) {
        insert_by_key(s.drop_last(), x, key).push(s.last())
    } else {
        s.push(x)
    }
}

/// Non-decreasing by key.
pub open spec fn ordered_by_key<T>(s: Seq<T>, key: spec_fn(T) -> int) -> bool {
    forall|a: int, b: int| 0 <= a < b < s.len() ==> key(#[trigger] s[a]) <= key(#[trigger] s[b])
}

/// The elements satisfying `pred`, ordered by key; elements with equal keys
/// keep their original order.
pub open spec fn ordered_of<T>(
    s: Seq<T>,
    pred: spec_fn(T) -> bool,
    key: spec_fn(T) -> int,
) -> Seq<T>
    decreases s.len(),
{
    if s.len() == 0 {
        Seq::empty()
    } else {
        let rest = ordered_of(s.drop_last(), pred, key);
        if pred(s.last()) {
            insert_by_key(rest, s.last(), key)
        } else {
            rest
        }
    }
}

/// Where the stable insertion lands: at the first index whose key exceeds
/// `key(x)`.
pub proof fn lemma_insert_by_key_at<T>(s: Seq<T>, x: T, key: spec_fn(T) -> int, idx: int)
    requires
        0 <= idx <= s.len(),
        forall|k: int| 0 <= k < idx ==> key(#[trigger] s[k]) <= key(x),
        forall|k: int| idx <= k < s.len() ==> key(#[trigger] s[k]) > key(x),
    ensures
        insert_by_key(s, x, key) == s.insert(idx, x),
    decreases s.len() - idx,
{
    if idx == s.len() {
        assert(insert_by_key(s, x, key) == s.push(x));
        assert(s.push(x) =~= s.insert(idx, x));
    } else {
        assert(key(s.last()) > key(x));
        let t = s.drop_last();
        assert(forall|k: int| 0 <= k < t.len() ==> t[k] == s[k]);
        lemma_insert_by_key_at(t, x, key, idx);
        assert(insert_by_key(s, x, key) == t.insert(idx, x).push(s.last()));
        assert(t.insert(idx, x).push(s.last()) =~= s.insert(idx, x));
    }
}

/// Stable insertion keeps the order.
pub proof fn lemma_insert_by_key_ordered<T>(s: Seq<T>, x: T, key: spec_fn(T) -> int, idx: int)
    requires
        ordered_by_key(s, key),
        0 <= idx <= s.len(),
        forall|k: int| 0 <= k < idx ==> key(#[trigger] s[k]) <= key(x),
        forall|k: int| idx <= k < s.len() ==> key(#[trigger] s[k]) > key(x),
    ensures
        ordered_by_key(s.insert(idx, x), key),
{
    let t = s.insert(idx, x);
    assert forall|a: int, b: int| 0 <= a < b < t.len() implies key(t[a]) <= key(t[b]) by {
        let oa = if a < idx {
            a
        } else {
            a - 1
        };
        let ob = if b < idx {
            b
        } else {
            b - 1
        };
        if a == idx {
            assert(t[b] == s[ob]);
        } else if b == idx {
            assert(t[a] == s[oa]);
        } else {
            assert(t[a] == s[oa]);
            assert(t[b] == s[ob]);
        }
    }
}

} // verus!
