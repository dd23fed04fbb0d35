//! Association lists: a sequence of pairs with distinct keys, seen as a map.

use vstd::prelude::*;

use crate::text;

verus! {

/// Does some pair of `s` have the key `k`?
pub open spec fn has_key<K, V>(s: Seq<(K, V)>, k: K) -> bool {
    exists|i: int| 0 <= i < s.len() && #[trigger] s[i].0 == k
}

/// A place of the key `k`.
pub open spec fn place_of<K, V>(s: Seq<(K, V)>, k: K) -> int {
    choose|i: int| 0 <= i < s.len() && #[trigger] s[i].0 == k
}

/// No key occurs twice.
pub open spec fn distinct_keys<K, V>(s: Seq<(K, V)>) -> bool {
    forall|i: int, j: int| 0 <= i < j < s.len() ==> #[trigger] s[i].0 != #[trigger] s[j].0
}

/// The pairs as a map.
pub open spec fn as_map<K, V>(s: Seq<(K, V)>) -> Map<K, V> {
    Map::new(|k: K| has_key(s, k), |k: K| s[place_of(s, k)].1)
}

/// What the map holds for the key at place `i`.
pub proof fn as_map_at<K, V>(s: Seq<(K, V)>, i: int)
    requires
        distinct_keys(s),
        0 <= i < s.len(),
    ensures
        as_map(s).dom().contains(s[i].0),
        as_map(s)[s[i].0] == s[i].1,
        place_of(s, s[i].0) == i,
{
    assert(has_key(s, s[i].0));
    let j = place_of(s, s[i].0);
    assert(s[j].0 == s[i].0);
}

/// Putting in a pair with a new key adds it to the map.
pub proof fn as_map_insert<K, V>(s: Seq<(K, V)>, i: int, k: K, v: V)
    requires
        distinct_keys(s),
        !has_key(s, k),
        0 <= i <= s.len(),
    ensures
        distinct_keys(s.insert(i, (k, v))),
        as_map(s.insert(i, (k, v))) == as_map(s).insert(k, v),
{
    let t = s.insert(i, (k, v));
    assert forall|a: int, b: int| 0 <= a < b < t.len() implies #[trigger] t[a].0 != #[trigger] t[b].0 by {
        let a0 = if a < i { a } else { a - 1 };
        let b0 = if b < i { b } else { b - 1 };
        if a != i {
            assert(t[a] == s[a0]);
        }
        if b != i {
            assert(t[b] == s[b0]);
        }
    }
    assert forall|x: K| #[trigger] as_map(t).dom().contains(x) <==> as_map(s).insert(
        k,
        v,
    ).dom().contains(x) by {
        if has_key(t, x) {
            let j = place_of(t, x);
            if j != i {
                let j0 = if j < i { j } else { j - 1 };
                assert(s[j0].0 == x);
            }
        }
        if has_key(s, x) {
            let j = place_of(s, x);
            let j1 = if j < i { j } else { j + 1 };
            assert(t[j1].0 == x);
        }
        if x == k {
            assert(t[i].0 == x);
        }
    }
    assert forall|x: K| #[trigger] as_map(t).dom().contains(x) implies as_map(t)[x] == as_map(
        s,
    ).insert(k, v)[x] by {
        if x == k {
            as_map_at(t, i);
            assert(t[i].0 == k);
        } else {
            let j = place_of(t, x);
            assert(t[j].0 == x);
            let j0 = if j < i { j } else { j - 1 };
            assert(t[j] == s[j0]);
            as_map_at(s, j0);
        }
    }
    assert(as_map(t) =~= as_map(s).insert(k, v));
}

/// Replacing the value at a place replaces it in the map.
pub proof fn as_map_update<K, V>(s: Seq<(K, V)>, i: int, v: V)
    requires
        distinct_keys(s),
        0 <= i < s.len(),
    ensures
        distinct_keys(s.update(i, (s[i].0, v))),
        as_map(s.update(i, (s[i].0, v))) == as_map(s).insert(s[i].0, v),
{
    let k = s[i].0;
    let t = s.update(i, (k, v));
    assert forall|a: int, b: int| 0 <= a < b < t.len() implies #[trigger] t[a].0 != #[trigger] t[b].0 by {
        assert(t[a].0 == s[a].0);
        assert(t[b].0 == s[b].0);
    }
    assert forall|x: K| #[trigger] as_map(t).dom().contains(x) <==> as_map(s).insert(
        k,
        v,
    ).dom().contains(x) by {
        if has_key(t, x) {
            assert(s[place_of(t, x)].0 == x);
        }
        if has_key(s, x) {
            assert(t[place_of(s, x)].0 == x);
        }
        if x == k {
            assert(t[i].0 == x);
        }
    }
    assert forall|x: K| #[trigger] as_map(t).dom().contains(x) implies as_map(t)[x] == as_map(
        s,
    ).insert(k, v)[x] by {
        let j = place_of(t, x);
        assert(t[j].0 == x);
        as_map_at(t, j);
        if x == k {
            as_map_at(t, i);
        } else {
            assert(s[j].0 == x);
            as_map_at(s, j);
        }
    }
    assert(as_map(t) =~= as_map(s).insert(k, v));
}

/// Taking out the pair at a place takes its key out of the map.
pub proof fn as_map_remove<K, V>(s: Seq<(K, V)>, i: int)
    requires
        distinct_keys(s),
        0 <= i < s.len(),
    ensures
        distinct_keys(s.remove(i)),
        as_map(s.remove(i)) == as_map(s).remove(s[i].0),
{
    let k = s[i].0;
    let t = s.remove(i);
    assert forall|a: int, b: int| 0 <= a < b < t.len() implies #[trigger] t[a].0 != #[trigger] t[b].0 by {
        let a1 = if a < i { a } else { a + 1 };
        let b1 = if b < i { b } else { b + 1 };
        assert(t[a] == s[a1]);
        assert(t[b] == s[b1]);
    }
    assert forall|x: K| #[trigger] as_map(t).dom().contains(x) <==> as_map(s).remove(
        k,
    ).dom().contains(x) by {
        if has_key(t, x) {
            let j = place_of(t, x);
            let j1 = if j < i { j } else { j + 1 };
            assert(t[j] == s[j1]);
            assert(s[j1].0 == x);
        }
        if has_key(s, x) && x != k {
            let j = place_of(s, x);
            let j0 = if j < i { j } else { j - 1 };
            assert(t[j0].0 == x);
        }
    }
    assert forall|x: K| #[trigger] as_map(t).dom().contains(x) implies as_map(t)[x] == as_map(
        s,
    ).remove(k)[x] by {
        let j = place_of(t, x);
        let j1 = if j < i { j } else { j + 1 };
        assert(t[j] == s[j1]);
        as_map_at(s, j1);
    }
    assert(as_map(t) =~= as_map(s).remove(k));
}

/// Keys in strictly ascending text order.
pub open spec fn ascending<V>(s: Seq<(Seq<char>, V)>) -> bool {
    forall|i: int, j: int|
        0 <= i < j < s.len() ==> text::lex_lt(#[trigger] s[i].0, #[trigger] s[j].0)
}

/// Ascending keys are distinct.
pub proof fn ascending_distinct<V>(s: Seq<(Seq<char>, V)>)
    requires
        ascending(s),
    ensures
        distinct_keys(s),
{
    assert forall|i: int, j: int| 0 <= i < j < s.len() implies #[trigger] s[i].0 != #[trigger] s[j].0 by {
        text::lex_irreflexive(s[i].0);
    }
}

/// A new key put in where it belongs keeps the keys ascending, and was not there before.
pub proof fn ascending_insert<V>(s: Seq<(Seq<char>, V)>, i: int, k: Seq<char>, v: V)
    requires
        ascending(s),
        0 <= i <= s.len(),
        forall|j: int| 0 <= j < i ==> text::lex_lt(#[trigger] s[j].0, k),
        i < s.len() ==> text::lex_lt(k, s[i].0),
    ensures
        ascending(s.insert(i, (k, v))),
        !has_key(s, k),
{
    let t = s.insert(i, (k, v));
    assert forall|j: int| i <= j < s.len() implies text::lex_lt(k, #[trigger] s[j].0) by {
        if j > i {
            text::lex_transitive(k, s[i].0, s[j].0);
        }
    }
    assert forall|a: int, b: int| 0 <= a < b < t.len() implies text::lex_lt(
        #[trigger] t[a].0,
        #[trigger] t[b].0,
    ) by {
        let a0 = if a < i { a } else { a - 1 };
        let b0 = if b < i { b } else { b - 1 };
        if a != i {
            assert(t[a] == s[a0]);
        }
        if b != i {
            assert(t[b] == s[b0]);
        }
    }
    if has_key(s, k) {
        let j = place_of(s, k);
        assert(s[j].0 == k);
        text::lex_irreflexive(k);
    }
}

} // verus!
