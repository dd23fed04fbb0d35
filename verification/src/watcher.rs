//! Coalescing filesystem changes: the burst of raw events of an editor's save becomes one
//! event per file.

use vstd::prelude::*;

use crate::assoc;
use crate::text::text_eq;

verus! {

/// The nature of a filesystem change.
#[derive(Copy, Clone, Debug, PartialEq, Eq, Structural)]
pub enum AssetEventKind {
    Created,
    Modified,
    Removed,
}

/// A filesystem change.
pub struct AssetEvent {
    pub path: String,
    pub kind: AssetEventKind,
}

/// A change as the platform reports it. `kind` is `None` for one of no interest, such as
/// an access.
pub struct RawEvent {
    pub kind: Option<AssetEventKind>,
    pub paths: Vec<String>,
}

/// Two changes of one path within a poll.
pub open spec fn merged_kinds(old: AssetEventKind, new: AssetEventKind) -> AssetEventKind {
    match (old, new) {
        (AssetEventKind::Created, AssetEventKind::Modified) => AssetEventKind::Created,
        (AssetEventKind::Modified, AssetEventKind::Created) => AssetEventKind::Created,
        _ => new,
    }
}

/// Merge two events for the same path within a single poll. `Created` is kept across a
/// `Modified`, since a fresh file is written by a create and a modify and has to look
/// different from a changed one. Otherwise the later event wins, which also covers saving
/// by atomic replacement.
pub fn merge_kinds(old: AssetEventKind, new: AssetEventKind) -> (r: AssetEventKind)
    ensures
        r == merged_kinds(old, new),
{
    match (old, new) {
        (AssetEventKind::Created, AssetEventKind::Modified) => AssetEventKind::Created,
        (AssetEventKind::Modified, AssetEventKind::Created) => AssetEventKind::Created,
        (_, new) => new,
    }
}

/// What is known of each path after one more change.
pub open spec fn with_change(
    m: Map<Seq<char>, AssetEventKind>,
    path: Seq<char>,
    kind: AssetEventKind,
) -> Map<Seq<char>, AssetEventKind> {
    m.insert(
        path,
        if m.dom().contains(path) {
            merged_kinds(m[path], kind)
        } else {
            kind
        },
    )
}

/// What is known of each path after a change of the given paths, in order.
pub open spec fn with_paths(
    m: Map<Seq<char>, AssetEventKind>,
    paths: Seq<String>,
    kind: AssetEventKind,
) -> Map<Seq<char>, AssetEventKind>
    decreases paths.len(),
{
    if paths.len() == 0 {
        m
    } else {
        with_change(with_paths(m, paths.drop_last(), kind), paths.last()@, kind)
    }
}

/// What is known of each path after the raw events, in order.
pub open spec fn coalesced(events: Seq<RawEvent>) -> Map<Seq<char>, AssetEventKind>
    decreases events.len(),
{
    if events.len() == 0 {
        Map::empty()
    } else {
        let before = coalesced(events.drop_last());
        match events.last().kind {
            Some(kind) => with_paths(before, events.last().paths@, kind),
            None => before,
        }
    }
}

/// Events as pairs of path and kind.
pub open spec fn event_pairs(s: Seq<AssetEvent>) -> Seq<(Seq<char>, AssetEventKind)> {
    s.map_values(|e: AssetEvent| (e.path@, e.kind))
}

fn note_change(latest: &mut Vec<AssetEvent>, path: &str, kind: AssetEventKind)
    requires
        assoc::distinct_keys(event_pairs(old(latest)@)),
    ensures
        assoc::distinct_keys(event_pairs(final(latest)@)),
        assoc::as_map(event_pairs(final(latest)@)) == with_change(
            assoc::as_map(event_pairs(old(latest)@)),
            path@,
            kind,
        ),
{
    let ghost s = event_pairs(latest@);
    let mut i: usize = 0;
    while i < latest.len()
        invariant
            i <= latest.len(),
            latest@ == old(latest)@,
            s == event_pairs(latest@),
            assoc::distinct_keys(s),
            forall|j: int| 0 <= j < i ==> (#[trigger] s[j]).0 != path@,
        decreases latest.len() - i,
    {
        assert(s[i as int] == (latest@[i as int].path@, latest@[i as int].kind));
        if text_eq(latest[i].path.as_str(), path) {
            let kind = merge_kinds(latest[i].kind, kind);
            proof {
                assoc::as_map_at(s, i as int);
                assoc::as_map_update(s, i as int, kind);
            }
            latest.set(i, AssetEvent { path: path.to_owned(), kind });
            assert(event_pairs(latest@) =~= s.update(i as int, (path@, kind)));
            return;
        }
        i += 1;
    }
    proof {
        assert(!assoc::has_key(s, path@));
        assoc::as_map_insert(s, s.len() as int, path@, kind);
    }
    latest.push(AssetEvent { path: path.to_owned(), kind });
    assert(event_pairs(latest@) =~= s.insert(s.len() as int, (path@, kind)));
}

/// Deduplicate the raw events of one poll: one event per path that changed, in no order to
/// rely on.
pub fn coalesce(events: &Vec<RawEvent>) -> (r: Vec<AssetEvent>)
    ensures
        assoc::distinct_keys(event_pairs(r@)),
        assoc::as_map(event_pairs(r@)) == coalesced(events@),
{
    let mut latest: Vec<AssetEvent> = Vec::new();
    let mut i: usize = 0;
    assert(events@.take(0) =~= Seq::empty());
    assert(assoc::as_map(event_pairs(latest@)) =~= Map::empty());
    while i < events.len()
        invariant
            i <= events.len(),
            assoc::distinct_keys(event_pairs(latest@)),
            assoc::as_map(event_pairs(latest@)) == coalesced(events@.take(i as int)),
        decreases events.len() - i,
    {
        let event = &events[i];
        let ghost before = coalesced(events@.take(i as int));
        assert(events@.take(i + 1).drop_last() =~= events@.take(i as int));
        assert(events@.take(i + 1).last() == event);
        if let Some(kind) = event.kind {
            let ghost paths = event.paths@;
            let mut j: usize = 0;
            assert(paths.take(0) =~= Seq::empty());
            while j < event.paths.len()
                invariant
                    j <= event.paths.len(),
                    paths == event.paths@,
                    assoc::distinct_keys(event_pairs(latest@)),
                    assoc::as_map(event_pairs(latest@)) == with_paths(
                        before,
                        paths.take(j as int),
                        kind,
                    ),
                decreases event.paths.len() - j,
            {
                assert(paths.take(j + 1).drop_last() =~= paths.take(j as int));
                assert(paths.take(j + 1).last() == paths[j as int]);
                note_change(&mut latest, event.paths[j].as_str(), kind);
                j += 1;
            }
            assert(paths.take(event.paths.len() as int) =~= paths);
        }
        i += 1;
    }
    assert(events@.take(events.len() as int) =~= events@);
    latest
}

// ---------------------------------------------------------------------------
// Laws
// ---------------------------------------------------------------------------

/// The changes of one path, merged in order.
pub open spec fn merged_all(kinds: Seq<AssetEventKind>) -> AssetEventKind
    recommends
        kinds.len() > 0,
    decreases kinds.len(),
{
    if kinds.len() <= 1 {
        kinds[0]
    } else {
        merged_kinds(merged_all(kinds.drop_last()), kinds.last())
    }
}

/// Was there a create since the last removal?
pub open spec fn created_since_removal(kinds: Seq<AssetEventKind>) -> bool
    decreases kinds.len(),
{
    kinds.len() > 0 && kinds.last() !is Removed && (kinds.last() is Created
        || created_since_removal(kinds.drop_last()))
}

/// What a burst of changes of one path collapses to: a removal if that came last; else a
/// create if there was one since the last removal; else a modification.
pub proof fn burst_collapses(kinds: Seq<AssetEventKind>)
    requires
        kinds.len() > 0,
    ensures
        merged_all(kinds) == (if kinds.last() is Removed {
            AssetEventKind::Removed
        } else if created_since_removal(kinds) {
            AssetEventKind::Created
        } else {
            AssetEventKind::Modified
        }),
    decreases kinds.len(),
{
    reveal_with_fuel(created_since_removal, 2);
    if kinds.len() > 1 {
        burst_collapses(kinds.drop_last());
    } else {
        assert(kinds.drop_last() =~= Seq::empty());
    }
}

/// The kinds of the changes of `path` among single-path changes, in order.
pub open spec fn changes_of(changes: Seq<(Seq<char>, AssetEventKind)>, path: Seq<char>) -> Seq<
    AssetEventKind,
>
    decreases changes.len(),
{
    if changes.len() == 0 {
        Seq::empty()
    } else if changes.last().0 == path {
        changes_of(changes.drop_last(), path).push(changes.last().1)
    } else {
        changes_of(changes.drop_last(), path)
    }
}

/// What is known after single-path changes.
pub open spec fn after_changes(changes: Seq<(Seq<char>, AssetEventKind)>) -> Map<
    Seq<char>,
    AssetEventKind,
>
    decreases changes.len(),
{
    if changes.len() == 0 {
        Map::empty()
    } else {
        with_change(after_changes(changes.drop_last()), changes.last().0, changes.last().1)
    }
}

/// The changes that an event reports, one per path.
pub open spec fn single_changes(paths: Seq<String>, kind: AssetEventKind) -> Seq<
    (Seq<char>, AssetEventKind),
> {
    paths.map_values(|p: String| (p@, kind))
}

/// All changes that the raw events report, one per path, in order.
pub open spec fn flattened(events: Seq<RawEvent>) -> Seq<(Seq<char>, AssetEventKind)>
    decreases events.len(),
{
    if events.len() == 0 {
        Seq::empty()
    } else {
        flattened(events.drop_last()) + match events.last().kind {
            Some(kind) => single_changes(events.last().paths@, kind),
            None => Seq::empty(),
        }
    }
}

proof fn changes_one_by_one(
    changes: Seq<(Seq<char>, AssetEventKind)>,
    paths: Seq<String>,
    kind: AssetEventKind,
)
    ensures
        with_paths(after_changes(changes), paths, kind) == after_changes(
            changes + single_changes(paths, kind),
        ),
    decreases paths.len(),
{
    let all = changes + single_changes(paths, kind);
    if paths.len() == 0 {
        assert(all =~= changes);
    } else {
        changes_one_by_one(changes, paths.drop_last(), kind);
        assert(all.drop_last() =~= changes + single_changes(paths.drop_last(), kind));
        assert(all.last() == (paths.last()@, kind));
    }
}

proof fn coalesced_one_by_one(events: Seq<RawEvent>)
    ensures
        coalesced(events) == after_changes(flattened(events)),
    decreases events.len(),
{
    if events.len() > 0 {
        coalesced_one_by_one(events.drop_last());
        match events.last().kind {
            Some(kind) => {
                changes_one_by_one(flattened(events.drop_last()), events.last().paths@, kind);
            },
            None => {
                assert(flattened(events) =~= flattened(events.drop_last()));
            },
        }
    }
}

proof fn after_changes_at(changes: Seq<(Seq<char>, AssetEventKind)>, path: Seq<char>)
    ensures
        after_changes(changes).dom().contains(path) <==> changes_of(changes, path).len() > 0,
        changes_of(changes, path).len() > 0 ==> after_changes(changes)[path] == merged_all(
            changes_of(changes, path),
        ),
    decreases changes.len(),
{
    if changes.len() > 0 {
        after_changes_at(changes.drop_last(), path);
        let before = changes_of(changes.drop_last(), path);
        if changes.last().0 == path {
            assert(before.push(changes.last().1).drop_last() =~= before);
        }
    }
}

/// Paths do not influence each other: what a path comes to is its own changes merged, and a
/// path that did not change is not reported.
pub proof fn paths_are_independent(events: Seq<RawEvent>, path: Seq<char>)
    ensures
        coalesced(events).dom().contains(path) <==> changes_of(flattened(events), path).len() > 0,
        changes_of(flattened(events), path).len() > 0 ==> coalesced(events)[path] == merged_all(
            changes_of(flattened(events), path),
        ),
{
    coalesced_one_by_one(events);
    after_changes_at(flattened(events), path);
}

/// Of a burst of changes one event a path comes out, and one for every path that changed: a path
/// that is gone is gone, one that was made since is new, and any other has changed.
pub proof fn one_event_a_path(path: Seq<char>)
    ensures
        forall|events: &Vec<RawEvent>, r: Vec<AssetEvent>| #[trigger]
            call_ensures(coalesce, (events,), r) ==> {
                let kinds = changes_of(flattened(events@), path);
                &&& forall|i: int, j: int|
                    0 <= i < j < r@.len() ==> (#[trigger] r@[i]).path@ != (#[trigger] r@[j]).path@
                &&& kinds.len() == 0 ==> forall|i: int|
                    0 <= i < r@.len() ==> (#[trigger] r@[i]).path@ != path
                &&& kinds.len() > 0 ==> exists|i: int|
                    {
                        &&& 0 <= i < r@.len()
                        &&& (#[trigger] r@[i]).path@ == path
                        &&& r@[i].kind is Removed <==> kinds.last() is Removed
                        &&& r@[i].kind is Created <==> !(kinds.last() is Removed)
                            && created_since_removal(kinds)
                    }
            },
{
    assert forall|events: &Vec<RawEvent>, r: Vec<AssetEvent>| #[trigger]
        call_ensures(coalesce, (events,), r) implies {
        let kinds = changes_of(flattened(events@), path);
        &&& forall|i: int, j: int|
            0 <= i < j < r@.len() ==> (#[trigger] r@[i]).path@ != (#[trigger] r@[j]).path@
        &&& kinds.len() == 0 ==> forall|i: int|
            0 <= i < r@.len() ==> (#[trigger] r@[i]).path@ != path
        &&& kinds.len() > 0 ==> exists|i: int|
            {
                &&& 0 <= i < r@.len()
                &&& (#[trigger] r@[i]).path@ == path
                &&& r@[i].kind is Removed <==> kinds.last() is Removed
                &&& r@[i].kind is Created <==> !(kinds.last() is Removed) && created_since_removal(
                    kinds,
                )
            }
    } by {
        let kinds = changes_of(flattened(events@), path);
        let pairs = event_pairs(r@);
        paths_are_independent(events@, path);
        assert forall|i: int, j: int| 0 <= i < j < r@.len() implies (#[trigger] r@[i]).path@ != (
        #[trigger] r@[j]).path@ by {
            assert(pairs[i].0 != pairs[j].0);
        }
        if kinds.len() == 0 {
            assert forall|i: int| 0 <= i < r@.len() implies (#[trigger] r@[i]).path@ != path by {
                if r@[i].path@ == path {
                    assert(pairs[i].0 == path);
                    assert(assoc::has_key(pairs, path));
                }
            }
        } else {
            burst_collapses(kinds);
            assert(assoc::has_key(pairs, path));
            let i = assoc::place_of(pairs, path);
            assoc::as_map_at(pairs, i);
            assert(r@[i].path@ == path);
            assert(r@[i].kind == merged_all(kinds));
        }
    }
}

/// Of two changes of a path one stays: it is gone if the later says so; made and then changed, or
/// the other way round, it is new; and else it is as the later says.
pub proof fn two_changes_make_one(old: AssetEventKind, new: AssetEventKind)
    ensures
        forall|r: AssetEventKind| #[trigger]
            call_ensures(merge_kinds, (old, new), r) ==> {
                &&& new is Removed ==> r is Removed
                &&& new is Created ==> r is Created
                &&& new is Modified && old is Created ==> r is Created
                &&& new is Modified && !(old is Created) ==> r is Modified
            },
{
}

} // verus!
