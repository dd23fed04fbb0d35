//! Bounded logs: the newest entries of a list, up to a cap.

use std::collections::VecDeque;

use vstd::prelude::*;

verus! {

/// The newest `cap` entries of `s`.
pub open spec fn capped<T>(s: Seq<T>, cap: nat) -> Seq<T> {
    if s.len() > cap {
        s.skip(s.len() - cap)
    } else {
        s
    }
}

/// Dropping old entries early does not change which ones are kept: appending to a capped
/// log and capping again keeps what capping the whole list keeps.
pub proof fn capped_twice<T>(a: Seq<T>, b: Seq<T>, cap: nat)
    ensures
        capped(capped(a, cap) + b, cap) == capped(a + b, cap),
{
    assert(capped(capped(a, cap) + b, cap) =~= capped(a + b, cap));
}

/// A capped log is never longer than its cap.
pub proof fn capped_len<T>(s: Seq<T>, cap: nat)
    ensures
        capped(s, cap).len() <= cap,
{
}

/// Append an entry and drop the oldest ones beyond the cap.
pub fn push_capped<T>(q: &mut VecDeque<T>, x: T, cap: usize)
    ensures
        final(q)@ == capped(old(q)@.push(x), cap as nat),
{
    let ghost all = q@.push(x);
    q.push_back(x);
    let ghost mut dropped: int = 0;
    while q.len() > cap
        invariant
            0 <= dropped <= all.len(),
            q@ == all.skip(dropped),
            dropped > 0 ==> all.len() - dropped >= cap,
        decreases q@.len(),
    {
        let ghost before = q@;
        let _ = q.pop_front();
        proof {
            assert(before.subrange(1, before.len() as int) =~= all.skip(dropped + 1));
            dropped = dropped + 1;
        }
    }
    assert(q@ =~= capped(all, cap as nat));
}

// ---------------------------------------------------------------------------
// Laws
// ---------------------------------------------------------------------------

/// The newest entry is always kept, with as many before it as there is room for, in order.
pub proof fn newest_entries_are_kept<T>()
    ensures
        forall|q: &mut VecDeque<T>, x: T, cap: usize, u: ()| #[trigger]
            call_ensures(push_capped::<T>, (q, x, cap), u) ==> {
                let all = (*q)@.push(x);
                let kept = (*final(q))@;
                &&& kept.is_suffix_of(all)
                &&& kept.len() == all.len() || kept.len() == cap
                &&& kept.len() <= cap
                &&& cap > 0 ==> kept.last() == x
            },
{
    assert forall|q: &mut VecDeque<T>, x: T, cap: usize, u: ()| #[trigger]
        call_ensures(push_capped::<T>, (q, x, cap), u) implies (*final(q))@.is_suffix_of(
        (*q)@.push(x),
    ) by {
        let all = (*q)@.push(x);
        let kept = (*final(q))@;
        assert(kept =~= all.subrange(all.len() - kept.len(), all.len() as int));
    }
}

} // verus!
