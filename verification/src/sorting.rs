//! Stable sorting by a text key.

use vstd::prelude::*;

use crate::text;
use crate::text::text_lt;

verus! {

/// `x` put into `s` behind everything that does not come after it.
pub open spec fn placed<T>(s: Seq<T>, x: T, key: spec_fn(T) -> Seq<char>) -> Seq<T>
    decreases s.len(),
{
    if s.len() == 0 || !text::lex_lt(key(x), key(s.last())) {
        s.push(x)
    } else {
        placed(s.drop_last(), x, key).push(s.last())
    }
}

/// The stable sort of `s` by `key`.
pub open spec fn in_order<T>(s: Seq<T>, key: spec_fn(T) -> Seq<char>) -> Seq<T>
    decreases s.len(),
{
    if s.len() == 0 {
        s
    } else {
        placed(in_order(s.drop_last(), key), s.last(), key)
    }
}

/// The key of a plain text is the text.
pub open spec fn own_key() -> spec_fn(Seq<char>) -> Seq<char> {
    |t: Seq<char>| t
}

/// The key of a pair is its first text.
pub open spec fn first_key() -> spec_fn((Seq<char>, Seq<char>)) -> Seq<char> {
    |p: (Seq<char>, Seq<char>)| p.0
}

/// No element comes before one that stands to its left.
pub open spec fn is_sorted<T>(s: Seq<T>, key: spec_fn(T) -> Seq<char>) -> bool {
    forall|i: int, j: int|
        0 <= i < j < s.len() ==> !text::lex_lt(key(#[trigger] s[j]), key(#[trigger] s[i]))
}

proof fn not_before_transitive(a: Seq<char>, b: Seq<char>, c: Seq<char>)
    requires
        !text::lex_lt(b, a),
        !text::lex_lt(c, b),
    ensures
        !text::lex_lt(c, a),
{
    text::lex_total(a, b);
    text::lex_total(b, c);
    if text::lex_lt(c, a) {
        if a == b || b == c {
        } else {
            text::lex_transitive(a, b, c);
            text::lex_transitive(a, c, a);
            text::lex_irreflexive(a);
        }
    }
}

proof fn placed_bounded<T>(s: Seq<T>, x: T, key: spec_fn(T) -> Seq<char>, bound: Seq<char>)
    requires
        forall|i: int| 0 <= i < s.len() ==> !text::lex_lt(bound, key(#[trigger] s[i])),
        !text::lex_lt(bound, key(x)),
    ensures
        forall|i: int|
            0 <= i < placed(s, x, key).len() ==> !text::lex_lt(
                bound,
                key(#[trigger] placed(s, x, key)[i]),
            ),
    decreases s.len(),
{
    if s.len() > 0 && text::lex_lt(key(x), key(s.last())) {
        let t = s.drop_last();
        assert forall|i: int| 0 <= i < t.len() implies !text::lex_lt(bound, key(#[trigger] t[i])) by {
            assert(t[i] == s[i]);
        }
        placed_bounded(t, x, key, bound);
        let p = placed(t, x, key);
        assert forall|i: int| 0 <= i < p.push(s.last()).len() implies !text::lex_lt(
            bound,
            key(#[trigger] p.push(s.last())[i]),
        ) by {
            if i < p.len() {
                assert(p.push(s.last())[i] == p[i]);
            } else {
                assert(p.push(s.last())[i] == s[s.len() - 1]);
            }
        }
    }
}

proof fn placed_keeps<T>(s: Seq<T>, x: T, key: spec_fn(T) -> Seq<char>)
    requires
        is_sorted(s, key),
    ensures
        is_sorted(placed(s, x, key), key),
        placed(s, x, key).to_multiset() == s.to_multiset().insert(x),
        placed(s, x, key).len() == s.len() + 1,
        s.len() > 0 && text::lex_lt(key(x), key(s.last())) ==> placed(s, x, key).last() == s.last(),
    decreases s.len(),
{
    broadcast use vstd::seq_lib::group_to_multiset_ensures;

    let r = placed(s, x, key);
    if s.len() == 0 {
        assert(is_sorted(r, key));
    } else if !text::lex_lt(key(x), key(s.last())) {
        assert forall|i: int, j: int| 0 <= i < j < r.len() implies !text::lex_lt(
            key(#[trigger] r[j]),
            key(#[trigger] r[i]),
        ) by {
            if j == s.len() && i < s.len() - 1 {
                assert(!text::lex_lt(key(s[s.len() - 1]), key(s[i])));
                not_before_transitive(key(s[i]), key(s.last()), key(x));
            }
        }
    } else {
        let t = s.drop_last();
        placed_keeps(t, x, key);
        let p = placed(t, x, key);
        let last = key(s.last());
        assert forall|i: int| 0 <= i < t.len() implies !text::lex_lt(last, key(#[trigger] t[i])) by {
            assert(t[i] == s[i]);
        }
        assert(!text::lex_lt(last, key(x))) by {
            if text::lex_lt(last, key(x)) {
                text::lex_transitive(last, key(x), last);
                text::lex_irreflexive(last);
            }
        }
        placed_bounded(t, x, key, last);
        assert forall|i: int, j: int| 0 <= i < j < r.len() implies !text::lex_lt(
            key(#[trigger] r[j]),
            key(#[trigger] r[i]),
        ) by {
            if j < p.len() {
                assert(r[i] == p[i] && r[j] == p[j]);
            } else {
                assert(r[i] == p[i]);
            }
        }
        assert(s =~= t.push(s.last()));
        assert(s.to_multiset() =~= t.to_multiset().insert(s.last()));
        assert(r.to_multiset() =~= s.to_multiset().insert(x));
    }
}

/// Sorting yields an ascending list of the same elements.
pub proof fn in_order_sorts<T>(s: Seq<T>, key: spec_fn(T) -> Seq<char>)
    ensures
        is_sorted(in_order(s, key), key),
        in_order(s, key).to_multiset() == s.to_multiset(),
        in_order(s, key).len() == s.len(),
    decreases s.len(),
{
    broadcast use vstd::seq_lib::group_to_multiset_ensures;

    if s.len() > 0 {
        in_order_sorts(s.drop_last(), key);
        placed_keeps(in_order(s.drop_last(), key), s.last(), key);
        assert(s =~= s.drop_last().push(s.last()));
    }
}

proof fn placed_is_insert<T>(s: Seq<T>, x: T, key: spec_fn(T) -> Seq<char>, i: int)
    requires
        0 <= i <= s.len(),
        i > 0 ==> !text::lex_lt(key(x), key(s[i - 1])),
        forall|j: int| i <= j < s.len() ==> text::lex_lt(key(x), key(#[trigger] s[j])),
    ensures
        placed(s, x, key) == s.insert(i, x),
    decreases s.len(),
{
    if i == s.len() {
        assert(s.insert(i, x) =~= s.push(x));
    } else {
        assert(s.last() == s[s.len() - 1]);
        placed_is_insert(s.drop_last(), x, key, i);
        assert(s.insert(i, x) =~= s.drop_last().insert(i, x).push(s.last()));
    }
}

fn place_text(v: &mut Vec<String>, x: String)
    ensures
        text::views(final(v)@) == placed(text::views(old(v)@), x@, own_key()),
{
    let ghost before = text::views(v@);
    let mut i: usize = v.len();
    while i > 0 && text_lt(x.as_str(), v[i - 1].as_str())
        invariant
            i <= v.len(),
            text::views(v@) == before,
            forall|j: int| i <= j < before.len() ==> text::lex_lt(x@, #[trigger] before[j]),
        decreases i,
    {
        assert(before[i - 1] == v@[i - 1]@);
        i -= 1;
    }
    proof {
        if i > 0 {
            assert(before[i - 1] == v@[i - 1]@);
        }
        placed_is_insert(before, x@, own_key(), i as int);
    }
    let ghost old_v = v@;
    v.insert(i, x);
    assert(text::views(v@) =~= before.insert(i as int, x@));
}

/// Sort texts.
pub fn sort_texts(v: Vec<String>) -> (r: Vec<String>)
    ensures
        text::views(r@) == in_order(text::views(v@), own_key()),
{
    let mut out: Vec<String> = Vec::new();
    let mut i: usize = 0;
    let ghost all = text::views(v@);
    assert(text::views(out@) =~= in_order(all.take(0), own_key()));
    while i < v.len()
        invariant
            i <= v.len(),
            all == text::views(v@),
            text::views(out@) == in_order(all.take(i as int), own_key()),
        decreases v.len() - i,
    {
        assert(all.take(i + 1).drop_last() =~= all.take(i as int));
        place_text(&mut out, v[i].clone());
        i += 1;
    }
    assert(all.take(all.len() as int) =~= all);
    out
}

/// The views of a list of pairs of texts.
pub open spec fn pair_views(v: Seq<(String, String)>) -> Seq<(Seq<char>, Seq<char>)> {
    v.map_values(|p: (String, String)| (p.0@, p.1@))
}

fn place_pair(v: &mut Vec<(String, String)>, x: (String, String))
    ensures
        pair_views(final(v)@) == placed(pair_views(old(v)@), (x.0@, x.1@), first_key()),
{
    let ghost before = pair_views(v@);
    let mut i: usize = v.len();
    while i > 0 && text_lt(x.0.as_str(), v[i - 1].0.as_str())
        invariant
            i <= v.len(),
            pair_views(v@) == before,
            forall|j: int| i <= j < before.len() ==> text::lex_lt(x.0@, (#[trigger] before[j]).0),
        decreases i,
    {
        assert(before[i - 1].0 == v@[i - 1].0@);
        i -= 1;
    }
    proof {
        if i > 0 {
            assert(before[i - 1].0 == v@[i - 1].0@);
        }
        placed_is_insert(before, (x.0@, x.1@), first_key(), i as int);
    }
    v.insert(i, x);
    assert(pair_views(v@) =~= before.insert(i as int, (x.0@, x.1@)));
}

/// Sort pairs by their first text, keeping the order of pairs with the same one.
pub fn sort_pairs(v: Vec<(String, String)>) -> (r: Vec<(String, String)>)
    ensures
        pair_views(r@) == in_order(pair_views(v@), first_key()),
{
    let mut out: Vec<(String, String)> = Vec::new();
    let mut i: usize = 0;
    let ghost all = pair_views(v@);
    assert(pair_views(out@) =~= in_order(all.take(0), first_key()));
    while i < v.len()
        invariant
            i <= v.len(),
            all == pair_views(v@),
            pair_views(out@) == in_order(all.take(i as int), first_key()),
        decreases v.len() - i,
    {
        assert(all.take(i + 1).drop_last() =~= all.take(i as int));
        place_pair(&mut out, (v[i].0.clone(), v[i].1.clone()));
        i += 1;
    }
    assert(all.take(all.len() as int) =~= all);
    out
}

// ---------------------------------------------------------------------------
// Laws
// ---------------------------------------------------------------------------

/// Sorting keeps every text, as often as it is there, and puts them in order; pairs are ordered
/// by their first text.
pub proof fn sorting_keeps_and_orders()
    ensures
        forall|v: Vec<String>, r: Vec<String>| #[trigger]
            call_ensures(sort_texts, (v,), r) ==> {
                let a = text::views(v@);
                let b = text::views(r@);
                &&& b.to_multiset() == a.to_multiset()
                &&& b.len() == a.len()
                &&& forall|i: int, j: int|
                    0 <= i < j < b.len() ==> !text::lex_lt(#[trigger] b[j], #[trigger] b[i])
            },
        forall|v: Vec<(String, String)>, r: Vec<(String, String)>| #[trigger]
            call_ensures(sort_pairs, (v,), r) ==> {
                let a = pair_views(v@);
                let b = pair_views(r@);
                &&& b.to_multiset() == a.to_multiset()
                &&& b.len() == a.len()
                &&& forall|i: int, j: int|
                    0 <= i < j < b.len() ==> !text::lex_lt((#[trigger] b[j]).0, (#[trigger] b[i]).0)
            },
{
    assert forall|v: Vec<String>, r: Vec<String>| #[trigger]
        call_ensures(sort_texts, (v,), r) implies {
        let a = text::views(v@);
        let b = text::views(r@);
        &&& b.to_multiset() == a.to_multiset()
        &&& b.len() == a.len()
        &&& forall|i: int, j: int|
            0 <= i < j < b.len() ==> !text::lex_lt(#[trigger] b[j], #[trigger] b[i])
    } by {
        let b = text::views(r@);
        let key = own_key();
        in_order_sorts(text::views(v@), key);
        assert forall|i: int, j: int| 0 <= i < j < b.len() implies !text::lex_lt(
            #[trigger] b[j],
            #[trigger] b[i],
        ) by {
            assert(!text::lex_lt(key(b[j]), key(b[i])));
        }
    }
    assert forall|v: Vec<(String, String)>, r: Vec<(String, String)>| #[trigger]
        call_ensures(sort_pairs, (v,), r) implies {
        let a = pair_views(v@);
        let b = pair_views(r@);
        &&& b.to_multiset() == a.to_multiset()
        &&& b.len() == a.len()
        &&& forall|i: int, j: int|
            0 <= i < j < b.len() ==> !text::lex_lt((#[trigger] b[j]).0, (#[trigger] b[i]).0)
    } by {
        let b = pair_views(r@);
        let key = first_key();
        in_order_sorts(pair_views(v@), key);
        assert forall|i: int, j: int| 0 <= i < j < b.len() implies !text::lex_lt(
            (#[trigger] b[j]).0,
            (#[trigger] b[i]).0,
        ) by {
            assert(!text::lex_lt(key(b[j]), key(b[i])));
        }
    }
}

} // verus!
