//! Drag-and-drop reordering of a row.

use vstd::prelude::*;

verus! {

/// `s` with the item at `from` moved to the insertion slot `to`. Slots count the gaps
/// between the items as they stand before the move; one past the end is the end.
pub open spec fn moved<T>(s: Seq<T>, from: int, to: int) -> Seq<T> {
    let rest = s.remove(from);
    let dest = if to > from {
        to - 1
    } else {
        to
    };
    rest.insert(
        if dest <= rest.len() {
            dest
        } else {
            rest.len() as int
        },
        s[from],
    )
}

/// Apply a drop of the item at `from` at slot `to`. Dropped on its own slot, or with an
/// index that no item has, it stays. Returns whether the row changed hands.
pub fn reorder<T>(items: &mut Vec<T>, from: usize, to: usize) -> (r: bool)
    ensures
        r == (from != to && from < old(items)@.len()),
        final(items)@ == (if r {
            moved(old(items)@, from as int, to as int)
        } else {
            old(items)@
        }),
{
    if from == to || from >= items.len() {
        return false;
    }
    let item = items.remove(from);
    let dest: usize = if to > from {
        to - 1
    } else {
        to
    };
    let at: usize = if dest <= items.len() {
        dest
    } else {
        items.len()
    };
    items.insert(at, item);
    true
}

/// What a frame does with a drop.
#[derive(Copy, Clone, Debug, PartialEq, Eq, Structural)]
pub struct DropOutcome {
    /// The payload is used up.
    pub take_payload: bool,
    /// The row was reordered: snap the gaps shut and reset the pickup animations.
    pub moved: bool,
}

/// Before the row is drawn: detect a pointer release over a slot and reorder at once, so
/// that the drop frame does not show the old order with the gap still open. `drop_idx` is
/// the slot under the cursor; `from` is the source index that the payload carries, if
/// there is a payload and it is one of this row's.
pub fn apply_drop_pre_pass<T>(
    items: &mut Vec<T>,
    released: bool,
    drop_idx: Option<usize>,
    from: Option<usize>,
) -> (r: DropOutcome)
    ensures
        r.take_payload == (released && drop_idx is Some && from is Some),
        r.moved == (r.take_payload && from != drop_idx && from->0 < old(items)@.len()),
        final(items)@ == (if r.moved {
            moved(old(items)@, from->0 as int, drop_idx->0 as int)
        } else {
            old(items)@
        }),
{
    if !released {
        return DropOutcome { take_payload: false, moved: false };
    }
    match (drop_idx, from) {
        (Some(to), Some(from)) => {
            let moved = reorder(items, from, to);
            DropOutcome { take_payload: true, moved }
        },
        _ => DropOutcome { take_payload: false, moved: false },
    }
}

/// A move keeps the items: none is lost, none doubled, and the others keep their order.
pub proof fn moving_keeps_the_items<T>(s: Seq<T>, from: int, to: int)
    requires
        0 <= from < s.len(),
        0 <= to,
    ensures
        moved(s, from, to).len() == s.len(),
        moved(s, from, to).to_multiset() == s.to_multiset(),
        exists|at: int|
            0 <= at < s.len() && moved(s, from, to)[at] == s[from] && #[trigger] moved(
                s,
                from,
                to,
            ).remove(at) == s.remove(from),
{
    broadcast use vstd::seq_lib::group_to_multiset_ensures;

    let rest = s.remove(from);
    let dest = if to > from {
        to - 1
    } else {
        to
    };
    let at = if dest <= rest.len() {
        dest
    } else {
        rest.len() as int
    };
    let r = moved(s, from, to);
    assert(r == rest.insert(at, s[from]));
    assert(r.remove(at) =~= rest);
    assert(r.to_multiset() =~= rest.to_multiset().insert(s[from]));
    assert(s =~= rest.insert(from, s[from]));
    assert(s.to_multiset() =~= rest.to_multiset().insert(s[from]));
}

/// The moved item ends up in the gap that was pointed at: what stood before the slot, but
/// for the item itself, still stands before it.
pub proof fn drop_lands_in_the_slot<T>(s: Seq<T>, from: int, to: int)
    requires
        0 <= from < s.len(),
        0 <= to <= s.len(),
    ensures
        to > from ==> moved(s, from, to)[to - 1] == s[from],
        to <= from ==> moved(s, from, to)[to] == s[from],
        to > from ==> (forall|i: int|
            to <= i < s.len() ==> #[trigger] moved(s, from, to)[i] == s[i]),
        to <= from ==> (forall|i: int|
            0 <= i < to ==> #[trigger] moved(s, from, to)[i] == s[i]),
{
}

/// A drop moves the item that was dragged to the gap that it was dropped on: the items before
/// that gap still stand before it, those behind it still behind, and no item is lost. Dropped
/// on its own place, or with an index that no item has, nothing moves.
pub proof fn drops_move_the_dragged_item<T>()
    ensures
        forall|items: &mut Vec<T>, from: usize, to: usize, r: bool| #[trigger]
            call_ensures(reorder::<T>, (items, from, to), r) ==> {
                let a = (*items)@;
                let b = (*final(items))@;
                &&& from == to || from >= a.len() ==> !r && b == a
                &&& from != to && from < a.len() ==> r && b.len() == a.len() && b.to_multiset()
                    == a.to_multiset()
                &&& from < to && from < a.len() && to <= a.len() ==> b == a.take(from as int)
                    + a.subrange(from + 1, to as int) + seq![a[from as int]] + a.skip(to as int)
                &&& to < from && from < a.len() ==> b == a.take(to as int) + seq![a[from as int]]
                    + a.subrange(to as int, from as int) + a.skip(from + 1)
                &&& to > a.len() && from < a.len() ==> b == a.take(from as int) + a.skip(from + 1)
                    + seq![a[from as int]]
            },
        forall|
            items: &mut Vec<T>,
            released: bool,
            slot: Option<usize>,
            from: Option<usize>,
            r: DropOutcome,
        |
            #[trigger] call_ensures(
                apply_drop_pre_pass::<T>,
                (items, released, slot, from),
                r,
            ) ==> {
                &&& !released || slot is None || from is None ==> !r.take_payload && !r.moved
                    && (*final(items))@ == (*items)@
                &&& released && slot is Some && from is Some ==> r.take_payload
                &&& r.moved <==> released && slot is Some && from is Some && slot != from && from->0
                    < (*items)@.len()
                &&& !r.moved ==> (*final(items))@ == (*items)@
                &&& r.moved ==> (*final(items))@.to_multiset() == (*items)@.to_multiset()
            },
{
    assert forall|items: &mut Vec<T>, from: usize, to: usize, r: bool| #[trigger]
        call_ensures(reorder::<T>, (items, from, to), r) implies {
        let a = (*items)@;
        let b = (*final(items))@;
        &&& from == to || from >= a.len() ==> !r && b == a
        &&& from != to && from < a.len() ==> r && b.len() == a.len() && b.to_multiset()
            == a.to_multiset()
        &&& from < to && from < a.len() && to <= a.len() ==> b == a.take(from as int) + a.subrange(
            from + 1,
            to as int,
        ) + seq![a[from as int]] + a.skip(to as int)
        &&& to < from && from < a.len() ==> b == a.take(to as int) + seq![a[from as int]]
            + a.subrange(to as int, from as int) + a.skip(from + 1)
        &&& to > a.len() && from < a.len() ==> b == a.take(from as int) + a.skip(from + 1)
            + seq![a[from as int]]
    } by {
        let a = (*items)@;
        let b = (*final(items))@;
        if from != to && from < a.len() {
            moving_keeps_the_items(a, from as int, to as int);
            if from < to && to <= a.len() {
                assert(b =~= a.take(from as int) + a.subrange(from + 1, to as int) + seq![
                    a[from as int],
                ] + a.skip(to as int));
            } else if to < from {
                assert(b =~= a.take(to as int) + seq![a[from as int]] + a.subrange(
                    to as int,
                    from as int,
                ) + a.skip(from + 1));
            } else {
                assert(b =~= a.take(from as int) + a.skip(from + 1) + seq![a[from as int]]);
            }
        }
    }
    assert forall|
        items: &mut Vec<T>,
        released: bool,
        slot: Option<usize>,
        from: Option<usize>,
        r: DropOutcome,
    |
        #[trigger] call_ensures(
            apply_drop_pre_pass::<T>,
            (items, released, slot, from),
            r,
        ) && r.moved implies (*final(items))@.to_multiset() == (*items)@.to_multiset() by {
        moving_keeps_the_items((*items)@, from->0 as int, slot->0 as int);
    }
}

} // verus!
