//! Sequences of `(path, value)` pairs kept in strictly increasing path order,
//! and the map that such a sequence stands for.

use vstd::prelude::*;
use crate::text::{text_lt, lemma_text_lt_irreflexive, lemma_text_lt_asymmetric};

verus! {

/// The paths increase strictly from left to right.
pub open spec fn keys_sorted<V>(s: Seq<(Seq<char>, V)>) -> bool {
    forall|i: int, j: int| 0 <= i < j < s.len() ==> text_lt(#[trigger] s[i].0, #[trigger] s[j].0)
}

pub open spec fn has_key<V>(s: Seq<(Seq<char>, V)>, k: Seq<char>) -> bool {
    exists|i: int| 0 <= i < s.len() && (#[trigger] s[i]).0 == k
}

pub open spec fn index_of_key<V>(s: Seq<(Seq<char>, V)>, k: Seq<char>) -> int {
    choose|i: int| 0 <= i < s.len() && (#[trigger] s[i]).0 == k
}

/// The map from each path to the value paired with it.
pub open spec fn as_map<V>(s: Seq<(Seq<char>, V)>) -> Map<Seq<char>, V> {
    Map::new(|k: Seq<char>| has_key(s, k), |k: Seq<char>| s[index_of_key(s, k)].1)
}

/// In a sorted sequence a path stands at one position only.
pub proof fn lemma_key_position_unique<V>(s: Seq<(Seq<char>, V)>, i: int, j: int)
    requires
        keys_sorted(s),
        0 <= i < s.len(),
        0 <= j < s.len(),
        s[i].0 == s[j].0,
    ensures
        i == j,
{
    if i < j {
        lemma_text_lt_irreflexive(s[i].0);
    } else if j < i {
        lemma_text_lt_irreflexive(s[i].0);
    }
}

/// The map of a sorted sequence gives each position's value for its path.
pub proof fn lemma_as_map_at<V>(s: Seq<(Seq<char>, V)>, i: int)
    requires
        keys_sorted(s),
        0 <= i < s.len(),
    ensures
        as_map(s).dom().contains(s[i].0),
        as_map(s)[s[i].0] == s[i].1,
{
    assert(has_key(s, s[i].0));
    lemma_key_position_unique(s, i, index_of_key(s, s[i].0));
}

/// Putting a new path at its place keeps the order and adds it to the map.
pub proof fn lemma_insert_new_key<V>(s: Seq<(Seq<char>, V)>, k: int, key: Seq<char>, v: V)
    requires
        keys_sorted(s),
        0 <= k <= s.len(),
        forall|i: int| 0 <= i < k ==> text_lt((#[trigger] s[i]).0, key),
        forall|i: int| k <= i < s.len() ==> text_lt(key, (#[trigger] s[i]).0),
    ensures
        keys_sorted(s.insert(k, (key, v))),
        as_map(s.insert(k, (key, v))) == as_map(s).insert(key, v),
{
    let t = s.insert(k, (key, v));
    assert forall|i: int, j: int| 0 <= i < j < t.len() implies text_lt(
        #[trigger] t[i].0,
        #[trigger] t[j].0,
    ) by {
        let oi = if i < k { i } else { i - 1 };
        let oj = if j < k { j } else { j - 1 };
        if i == k {
            assert(t[j] == s[oj]);
        } else if j == k {
            assert(t[i] == s[oi]);
        } else {
            assert(t[i] == s[oi] && t[j] == s[oj]);
        }
    }
    assert forall|q: Seq<char>| as_map(t).dom().contains(q) == as_map(s).insert(
        key,
        v,
    ).dom().contains(q) by {
        if has_key(t, q) {
            let i = index_of_key(t, q);
            if i != k {
                let oi = if i < k { i } else { i - 1 };
                assert(s[oi].0 == q);
            }
        }
        if has_key(s, q) {
            let i = index_of_key(s, q);
            let ni = if i < k { i } else { i + 1 };
            assert(t[ni].0 == q);
        }
        if q == key {
            assert(t[k].0 == q);
        }
    }
    assert forall|q: Seq<char>| as_map(t).dom().contains(q) implies as_map(t)[q] == as_map(
        s,
    ).insert(key, v)[q] by {
        let i = index_of_key(t, q);
        lemma_as_map_at(t, i);
        if i != k {
            let oi = if i < k { i } else { i - 1 };
            assert(s[oi] == t[i]);
            lemma_as_map_at(s, oi);
            if q == key {
                lemma_key_position_unique(t, i, k);
            }
        }
    }
    assert(as_map(t) =~= as_map(s).insert(key, v));
}

/// Replacing the value at a path's position keeps the order and updates the map.
pub proof fn lemma_replace_value<V>(s: Seq<(Seq<char>, V)>, k: int, v: V)
    requires
        keys_sorted(s),
        0 <= k < s.len(),
    ensures
        keys_sorted(s.update(k, (s[k].0, v))),
        as_map(s.update(k, (s[k].0, v))) == as_map(s).insert(s[k].0, v),
{
    let key = s[k].0;
    let t = s.update(k, (key, v));
    assert forall|i: int, j: int| 0 <= i < j < t.len() implies text_lt(
        #[trigger] t[i].0,
        #[trigger] t[j].0,
    ) by {
        assert(t[i].0 == s[i].0 && t[j].0 == s[j].0);
    }
    assert forall|q: Seq<char>| as_map(t).dom().contains(q) == as_map(s).insert(
        key,
        v,
    ).dom().contains(q) by {
        if has_key(t, q) {
            let i = index_of_key(t, q);
            assert(s[i].0 == q);
        }
        if has_key(s, q) {
            let i = index_of_key(s, q);
            assert(t[i].0 == q);
        }
        if q == key {
            assert(t[k].0 == q);
        }
    }
    assert forall|q: Seq<char>| as_map(t).dom().contains(q) implies as_map(t)[q] == as_map(
        s,
    ).insert(key, v)[q] by {
        let i = index_of_key(t, q);
        lemma_as_map_at(t, i);
        if i != k {
            assert(s[i] == t[i]);
            lemma_as_map_at(s, i);
            if q == key {
                lemma_key_position_unique(t, i, k);
            }
        }
    }
    assert(as_map(t) =~= as_map(s).insert(key, v));
}

/// A path held before the last position of one sorted sequence is held
/// before the last position of the other, with the same value, when both
/// stand for the same map and end with the same path.
proof fn lemma_drop_last_key<V>(a: Seq<(Seq<char>, V)>, b: Seq<(Seq<char>, V)>, q: Seq<char>)
    requires
        keys_sorted(a),
        keys_sorted(b),
        as_map(a) == as_map(b),
        a.len() > 0,
        b.len() > 0,
        a.last().0 == b.last().0,
        has_key(a.drop_last(), q),
    ensures
        has_key(b.drop_last(), q),
        as_map(a.drop_last())[q] == as_map(b.drop_last())[q],
{
    let a0 = a.drop_last();
    let b0 = b.drop_last();
    let i = index_of_key(a0, q);
    assert(a0[i] == a[i]);
    assert(text_lt(a[i].0, a[a.len() - 1].0));
    lemma_text_lt_asymmetric(a[i].0, a.last().0);
    lemma_as_map_at(a, i);
    assert(as_map(b).dom().contains(q));
    assert(has_key(b, q));
    let j = index_of_key(b, q);
    assert(j != b.len() - 1);
    assert(b0[j] == b[j]);
    lemma_as_map_at(b, j);
    assert(keys_sorted(a0)) by {
        assert forall|x: int, y: int| 0 <= x < y < a0.len() implies text_lt(
            #[trigger] a0[x].0,
            #[trigger] a0[y].0,
        ) by {
            assert(a0[x] == a[x] && a0[y] == a[y]);
        }
    }
    assert(keys_sorted(b0)) by {
        assert forall|x: int, y: int| 0 <= x < y < b0.len() implies text_lt(
            #[trigger] b0[x].0,
            #[trigger] b0[y].0,
        ) by {
            assert(b0[x] == b[x] && b0[y] == b[y]);
        }
    }
    lemma_as_map_at(a0, i);
    lemma_as_map_at(b0, j);
}

/// Two sorted sequences that stand for the same map are the same sequence.
pub proof fn lemma_sorted_unique<V>(a: Seq<(Seq<char>, V)>, b: Seq<(Seq<char>, V)>)
    requires
        keys_sorted(a),
        keys_sorted(b),
        as_map(a) == as_map(b),
    ensures
        a == b,
    decreases a.len(),
{
    if a.len() == 0 {
        if b.len() > 0 {
            lemma_as_map_at(b, 0);
            assert(has_key(a, b[0].0));
        }
        assert(a =~= b);
    } else if b.len() == 0 {
        lemma_as_map_at(a, 0);
        assert(has_key(b, a[0].0));
    } else {
        let la = a.len() - 1;
        let lb = b.len() - 1;
        lemma_as_map_at(a, la);
        lemma_as_map_at(b, lb);
        // The greatest path of either sequence is the greatest path of the other.
        assert(has_key(b, a[la].0));
        assert(has_key(a, b[lb].0));
        let ib = index_of_key(b, a[la].0);
        let ia = index_of_key(a, b[lb].0);
        if ib < lb {
            assert(text_lt(b[ib].0, b[lb].0));
            if ia < la {
                assert(text_lt(a[ia].0, a[la].0));
                lemma_text_lt_asymmetric(a[la].0, b[lb].0);
            }
        }
        assert(a[la].0 == b[lb].0);
        assert(a[la].1 == b[lb].1);
        let a0 = a.drop_last();
        let b0 = b.drop_last();
        assert forall|q: Seq<char>| has_key(a0, q) implies has_key(b0, q) && as_map(a0)[q]
            == as_map(b0)[q] by {
            lemma_drop_last_key(a, b, q);
        }
        assert forall|q: Seq<char>| has_key(b0, q) implies has_key(a0, q) by {
            lemma_drop_last_key(b, a, q);
        }
        assert(as_map(a0) =~= as_map(b0));
        assert(keys_sorted(a0)) by {
            assert forall|x: int, y: int| 0 <= x < y < a0.len() implies text_lt(
                #[trigger] a0[x].0,
                #[trigger] a0[y].0,
            ) by {
                assert(a0[x] == a[x] && a0[y] == a[y]);
            }
        }
        assert(keys_sorted(b0)) by {
            assert forall|x: int, y: int| 0 <= x < y < b0.len() implies text_lt(
                #[trigger] b0[x].0,
                #[trigger] b0[y].0,
            ) by {
                assert(b0[x] == b[x] && b0[y] == b[y]);
            }
        }
        lemma_sorted_unique(a0, b0);
        assert(a =~= a0.push(a[la]));
        assert(b =~= b0.push(b[lb]));
    }
}

} // verus!
