//! Offline rendering: a scene driven through a fixed timeline, without window or live
//! input.
//!
//! The host draws and writes; here stand the scripted cursor, the order of the steps and
//! the names of the files. A time is given by an integer that is ordered as the time is;
//! `P` is whatever the host keeps a position in.

use vstd::prelude::*;

use crate::capture::laws;
use crate::capture::session;
use crate::capture::session::join_path;
use crate::text;
use crate::text::{chars_of, number_filled, string_of, text_eq, to_ascii_lowercase};

verus! {

// ---------------------------------------------------------------------------
// The scripted cursor
// ---------------------------------------------------------------------------

/// One keyframe: from `time` on the cursor is at `position`, or absent.
#[derive(Clone, Copy, Debug)]
pub struct CursorKey<P> {
    pub time: i32,
    pub position: Option<P>,
}

/// `k` put into `s` behind everything that is not later.
pub open spec fn placed<P>(s: Seq<CursorKey<P>>, k: CursorKey<P>) -> Seq<CursorKey<P>>
    decreases s.len(),
{
    if s.len() == 0 || s.last().time <= k.time {
        s.push(k)
    } else {
        placed(s.drop_last(), k).push(s.last())
    }
}

/// The keys by time; keys of one time stay in the order they came.
pub open spec fn by_time<P>(s: Seq<CursorKey<P>>) -> Seq<CursorKey<P>>
    decreases s.len(),
{
    if s.len() == 0 {
        s
    } else {
        placed(by_time(s.drop_last()), s.last())
    }
}

/// No key comes before one to its left.
pub open spec fn is_by_time<P>(s: Seq<CursorKey<P>>) -> bool {
    forall|i: int, j: int| 0 <= i < j < s.len() ==> (#[trigger] s[i]).time <= (#[trigger] s[j]).time
}

/// Of keys in order of time, the last one at or before `t`.
pub open spec fn key_at<P>(s: Seq<CursorKey<P>>, t: i32) -> Option<CursorKey<P>>
    decreases s.len(),
{
    if s.len() == 0 {
        None
    } else if s.last().time <= t {
        Some(s.last())
    } else {
        key_at(s.drop_last(), t)
    }
}

/// The position that a key stands for.
pub open spec fn position_of<P>(k: Option<CursorKey<P>>) -> Option<P> {
    match k {
        Some(k) => k.position,
        None => None,
    }
}

/// A scripted cursor: between keys the previous key's state holds.
pub struct CursorTrack<P> {
    pub keys: Vec<CursorKey<P>>,
}

impl<P: Copy> CursorTrack<P> {
    pub open spec fn wf(&self) -> bool {
        is_by_time(self.keys@)
    }

    /// Build from keyframes in any order.
    pub fn new(keys: Vec<CursorKey<P>>) -> (r: CursorTrack<P>)
        ensures
            r.wf(),
            r.keys@ == by_time(keys@),
    {
        let mut out: Vec<CursorKey<P>> = Vec::new();
        let mut i: usize = 0;
        assert(keys@.take(0) =~= Seq::empty());
        while i < keys.len()
            invariant
                i <= keys.len(),
                out@ == by_time(keys@.take(i as int)),
                is_by_time(out@),
            decreases keys.len() - i,
        {
            assert(keys@.take(i + 1).drop_last() =~= keys@.take(i as int));
            assert(keys@.take(i + 1).last() == keys@[i as int]);
            place(&mut out, keys[i]);
            i += 1;
        }
        assert(keys@.take(keys.len() as int) =~= keys@);
        CursorTrack { keys: out }
    }

    /// The cursor at `t`: where the latest key at or before `t` puts it. `None` before the
    /// first key, and where that key is absent.
    pub fn sample(&self, t: i32) -> (r: Option<P>)
        requires
            self.wf(),
        ensures
            r == position_of(key_at(self.keys@, t)),
    {
        let ghost s = self.keys@;
        let mut cur: Option<P> = None;
        let mut i: usize = 0;
        assert(s.take(0) =~= Seq::empty());
        while i < self.keys.len()
            invariant
                i <= self.keys.len(),
                s == self.keys@,
                is_by_time(s),
                cur == position_of(key_at(s.take(i as int), t)),
                forall|j: int| 0 <= j < i ==> (#[trigger] s[j]).time <= t,
            decreases self.keys.len() - i,
        {
            let k = self.keys[i];
            if k.time > t {
                proof {
                    late_keys_do_not_count(s, i as int, t);
                }
                return cur;
            }
            assert(s.take(i + 1).last() == s[i as int]);
            cur = k.position;
            i += 1;
        }
        assert(s.take(self.keys.len() as int) =~= s);
        cur
    }
}

proof fn late_keys_do_not_count<P>(s: Seq<CursorKey<P>>, n: int, t: i32)
    requires
        is_by_time(s),
        0 <= n < s.len(),
        s[n].time > t,
    ensures
        key_at(s, t) == key_at(s.take(n), t),
    decreases s.len(),
{
    assert(s.last().time > t) by {
        if n < s.len() - 1 {
            assert(s[n].time <= s[s.len() - 1].time);
        }
    }
    if n < s.len() - 1 {
        let d = s.drop_last();
        assert forall|i: int, j: int| 0 <= i < j < d.len() implies (#[trigger] d[i]).time <= (
        #[trigger] d[j]).time by {
            assert(s[i].time <= s[j].time);
        }
        late_keys_do_not_count(d, n, t);
        assert(d.take(n) =~= s.take(n));
    } else {
        assert(s.drop_last() =~= s.take(n));
    }
}

fn place<P: Copy>(s: &mut Vec<CursorKey<P>>, k: CursorKey<P>)
    requires
        is_by_time(old(s)@),
    ensures
        final(s)@ == placed(old(s)@, k),
        is_by_time(final(s)@),
{
    let ghost before = s@;
    let mut at: usize = s.len();
    assert(before.take(at as int) =~= before);
    assert(placed(before, k) =~= placed(before.take(at as int), k) + before.skip(at as int));
    while at > 0 && s[at - 1].time > k.time
        invariant
            s@ == before,
            is_by_time(before),
            at <= before.len(),
            placed(before, k) == placed(before.take(at as int), k) + before.skip(at as int),
            forall|j: int| at <= j < before.len() ==> (#[trigger] before[j]).time > k.time,
        decreases at,
    {
        let ghost t = before.take(at as int);
        assert(t.last() == before[at - 1]);
        assert(t.drop_last() =~= before.take(at - 1));
        assert(placed(before.take(at - 1), k).push(before[at - 1]) + before.skip(at as int)
            =~= placed(before.take(at - 1), k) + before.skip(at - 1));
        at -= 1;
    }
    proof {
        let t = before.take(at as int);
        if at > 0 {
            assert(t.last() == before[at - 1]);
        }
        assert(placed(t, k) == t.push(k));
        assert(before.insert(at as int, k) =~= t.push(k) + before.skip(at as int));
    }
    s.insert(at, k);
    assert forall|i: int, j: int| 0 <= i < j < s@.len() implies (#[trigger] s@[i]).time <= (
    #[trigger] s@[j]).time by {
        let i0 = if i < at {
            i
        } else {
            i - 1
        };
        let j0 = if j < at {
            j
        } else {
            j - 1
        };
        if i != at && j != at {
            assert(before[i0].time <= before[j0].time);
        } else if i == at {
            assert(before[j0].time > k.time);
        } else {
            if i0 < at - 1 {
                assert(before[i0].time <= before[at - 1].time);
            }
        }
    }
}

// ---------------------------------------------------------------------------
// The timeline
// ---------------------------------------------------------------------------

/// One step of an offline rendering.
#[derive(Clone, Copy, Debug, PartialEq, Eq, Structural)]
pub enum OfflineStep {
    /// Drive the scene's UI with the scripted cursor at the simulation's time.
    DriveUi,
    /// Update the scene by one interval, and move the simulation's time on by it.
    Advance,
    /// Render the frame, read it back and write it.
    Render { frame: usize },
}

/// The step at place `k` of a rendering of `total` frames that replays `pre` intervals
/// first. `None` behind the last. Between two frames the scene advances; not behind the
/// last one.
pub open spec fn step_at(pre: nat, total: nat, k: nat) -> Option<OfflineStep> {
    if k < 2 * pre {
        Some(
            if k % 2 == 0 {
                OfflineStep::DriveUi
            } else {
                OfflineStep::Advance
            },
        )
    } else {
        let m = (k - 2 * pre) as nat;
        if m + 1 >= 3 * total {
            None
        } else if m % 3 == 0 {
            Some(OfflineStep::DriveUi)
        } else if m % 3 == 1 {
            Some(OfflineStep::Render { frame: (m / 3) as usize })
        } else {
            Some(OfflineStep::Advance)
        }
    }
}

/// Where a rendering stands: what is left to replay, the frame at hand, and how far it is.
pub struct OfflinePlan {
    pub pre: usize,
    pub total: usize,
    /// Intervals replayed so far.
    pub replayed: usize,
    /// Frames rendered and left behind so far.
    pub frame: usize,
    /// Steps taken within the interval or frame at hand.
    pub phase: u8,
}

impl OfflinePlan {
    pub open spec fn wf(&self) -> bool {
        &&& self.replayed <= self.pre
        &&& self.replayed < self.pre ==> self.phase < 2 && self.frame == 0
        &&& self.phase < 3
        &&& self.frame < self.total
    }

    /// How many steps have been taken.
    pub open spec fn at(&self) -> nat {
        if self.replayed < self.pre {
            (2 * self.replayed + self.phase) as nat
        } else {
            (2 * self.pre + 3 * self.frame + self.phase) as nat
        }
    }

    /// A rendering of `total` frames after `pre` replayed intervals.
    pub fn new(pre: usize, total: usize) -> (r: OfflinePlan)
        requires
            total >= 1,
        ensures
            r.wf(),
            r.pre == pre,
            r.total == total,
            r.at() == 0,
    {
        OfflinePlan { pre, total, replayed: 0, frame: 0, phase: 0 }
    }

    /// Take the next step.
    pub fn next_step(&mut self) -> (r: Option<OfflineStep>)
        requires
            old(self).wf(),
        ensures
            final(self).wf(),
            final(self).pre == old(self).pre,
            final(self).total == old(self).total,
            r == step_at(old(self).pre as nat, old(self).total as nat, old(self).at()),
            final(self).at() == old(self).at() + (if r is Some {
                1nat
            } else {
                0
            }),
    {
        if self.replayed < self.pre {
            if self.phase == 0 {
                self.phase = 1;
                return Some(OfflineStep::DriveUi);
            }
            self.phase = 0;
            self.replayed += 1;
            return Some(OfflineStep::Advance);
        }
        let frame: usize = self.frame;
        if self.phase == 0 {
            self.phase = 1;
            Some(OfflineStep::DriveUi)
        } else if self.phase == 1 {
            self.phase = 2;
            Some(OfflineStep::Render { frame })
        } else if frame + 1 < self.total {
            self.phase = 0;
            self.frame += 1;
            Some(OfflineStep::Advance)
        } else {
            None
        }
    }
}

// ---------------------------------------------------------------------------
// Files
// ---------------------------------------------------------------------------

/// A path without the separators at its end, and without `.` components there.
pub open spec fn without_tail(p: Seq<char>) -> Seq<char>
    decreases p.len(),
{
    if p.len() > 0 && p.last() == '/' {
        without_tail(p.drop_last())
    } else if p.len() > 1 && p.last() == '.' && p[p.len() - 2] == '/' {
        without_tail(p.drop_last())
    } else {
        p
    }
}

/// What stands behind the last separator, `/`.
pub open spec fn base_name(p: Seq<char>) -> Seq<char>
    decreases p.len(),
{
    if p.len() == 0 || p.last() == '/' {
        Seq::empty()
    } else {
        base_name(p.drop_last()).push(p.last())
    }
}

/// Does the path name a file with the extension `png`, in any case? A name that is the
/// extension alone has none.
pub open spec fn names_png(p: Seq<char>) -> bool {
    let name = base_name(without_tail(p));
    name.len() > 4 && text::lowered(name.skip(name.len() - 4)) == ".png"@
}

/// The file of frame `i` of `total`: a lone frame to a `.png` target is that file,
/// otherwise frames are numbered below the directory.
pub open spec fn frame_file(out: Seq<char>, i: nat, total: nat) -> Seq<char> {
    if total == 1 && names_png(out) {
        out
    } else {
        session::joined_path(out, "frame_"@ + text::zero_filled(i, 4) + ".png"@)
    }
}

fn is_png(out: &str) -> (r: bool)
    ensures
        r == names_png(out@),
{
    let v = chars_of(out);
    let mut end: usize = v.len();
    assert(v@.take(end as int) =~= v@);
    while end > 0 && (v[end - 1] == '/' || (end > 1 && v[end - 1] == '.' && v[end - 2] == '/'))
        invariant
            end <= v.len(),
            without_tail(out@) == without_tail(v@.take(end as int)),
        decreases end,
    {
        assert(v@.take(end as int).drop_last() =~= v@.take(end - 1));
        end -= 1;
    }
    let ghost p = v@.take(end as int);
    assert(without_tail(p) == p);
    let mut from: usize = end;
    assert(p.take(from as int) =~= p);
    assert(p.skip(from as int) =~= Seq::empty());
    assert(base_name(p) =~= base_name(p.take(from as int)) + p.skip(from as int));
    while from > 0 && v[from - 1] != '/'
        invariant
            from <= end <= v.len(),
            p == v@.take(end as int),
            base_name(p) == base_name(p.take(from as int)) + p.skip(from as int),
        decreases from,
    {
        assert(p.take(from as int).drop_last() =~= p.take(from - 1));
        assert(p.take(from as int).last() == p[from - 1]);
        assert(base_name(p.take(from - 1)).push(p[from - 1]) + p.skip(from as int)
            =~= base_name(p.take(from - 1)) + p.skip(from - 1));
        from -= 1;
    }
    assert(base_name(p) =~= p.skip(from as int)) by {
        if from > 0 {
            assert(p.take(from as int).last() == p[from - 1]);
        }
    }
    if end - from <= 4 {
        return false;
    }
    let ext = string_of(&v, end - 4, end);
    assert(ext@ =~= base_name(p).skip(base_name(p).len() - 4));
    text_eq(to_ascii_lowercase(ext.as_str()).as_str(), ".png")
}

/// Output path for frame `i`.
pub fn frame_path(out: &str, i: usize, total: usize) -> (r: String)
    ensures
        r@ == frame_file(out@, i as nat, total as nat),
{
    if total == 1 && is_png(out) {
        return out.to_owned();
    }
    let mut name = "frame_".to_owned();
    name.append(number_filled(i as u64, 4).as_str());
    name.append(".png");
    join_path(out, name.as_str())
}

// ---------------------------------------------------------------------------
// Laws
// ---------------------------------------------------------------------------

/// Of keys in any order, the one that holds at `t`: the latest at or before it, and of
/// several at one time the last given.
pub open spec fn holding<P>(keys: Seq<CursorKey<P>>, t: i32) -> Option<CursorKey<P>>
    decreases keys.len(),
{
    if keys.len() == 0 {
        None
    } else {
        let k = keys.last();
        match holding(keys.drop_last(), t) {
            None => if k.time <= t {
                Some(k)
            } else {
                None
            },
            Some(h) => if k.time <= t && h.time <= k.time {
                Some(k)
            } else {
                Some(h)
            },
        }
    }
}

proof fn placed_is_by_time<P>(s: Seq<CursorKey<P>>, k: CursorKey<P>)
    requires
        is_by_time(s),
    ensures
        is_by_time(placed(s, k)),
        placed(s, k).len() == s.len() + 1,
        forall|i: int|
            0 <= i < placed(s, k).len() ==> (#[trigger] placed(s, k)[i]).time <= (if s.len() > 0
                && s.last().time > k.time {
                s.last().time
            } else {
                k.time
            }),
    decreases s.len(),
{
    let r = placed(s, k);
    if s.len() > 0 && s.last().time > k.time {
        let d = s.drop_last();
        assert forall|i: int, j: int| 0 <= i < j < d.len() implies (#[trigger] d[i]).time <= (
        #[trigger] d[j]).time by {
            assert(s[i].time <= s[j].time);
        }
        placed_is_by_time(d, k);
        let q = placed(d, k);
        assert(d.len() > 0 ==> d.last().time <= s.last().time) by {
            if d.len() > 0 {
                assert(s[s.len() - 2].time <= s[s.len() - 1].time);
            }
        }
        assert forall|i: int, j: int| 0 <= i < j < r.len() implies (#[trigger] r[i]).time <= (
        #[trigger] r[j]).time by {
            if j < q.len() {
                assert(q[i].time <= q[j].time);
            } else {
                assert(q[i].time <= s.last().time);
            }
        }
        assert forall|i: int| 0 <= i < r.len() implies (#[trigger] r[i]).time <= s.last().time by {
            if i < q.len() {
                assert(q[i].time <= s.last().time);
            }
        }
    } else {
        assert forall|i: int, j: int| 0 <= i < j < r.len() implies (#[trigger] r[i]).time <= (
        #[trigger] r[j]).time by {
            if j == s.len() && i < s.len() - 1 {
                assert(s[i].time <= s[s.len() - 1].time);
            }
        }
        assert forall|i: int| 0 <= i < r.len() implies (#[trigger] r[i]).time <= k.time by {
            if i < s.len() - 1 {
                assert(s[i].time <= s[s.len() - 1].time);
            }
        }
    }
}

proof fn placed_key_at<P>(s: Seq<CursorKey<P>>, k: CursorKey<P>, t: i32)
    requires
        is_by_time(s),
    ensures
        key_at(placed(s, k), t) == (match key_at(s, t) {
            None => if k.time <= t {
                Some(k)
            } else {
                None
            },
            Some(h) => if k.time <= t && h.time <= k.time {
                Some(k)
            } else {
                Some(h)
            },
        }),
        key_at(s, t) is Some ==> key_at(s, t)->0.time <= t && (s.len() > 0 && key_at(
            s,
            t,
        )->0.time <= s.last().time),
    decreases s.len(),
{
    if s.len() > 0 {
        let d = s.drop_last();
        assert forall|i: int, j: int| 0 <= i < j < d.len() implies (#[trigger] d[i]).time <= (
        #[trigger] d[j]).time by {
            assert(s[i].time <= s[j].time);
        }
        placed_key_at(d, k, t);
        if d.len() > 0 {
            assert(s[s.len() - 2].time <= s[s.len() - 1].time);
        }
        if s.last().time > k.time {
            assert(placed(s, k).drop_last() =~= placed(d, k));
        } else {
            assert(placed(s, k).drop_last() =~= s);
        }
    } else {
        assert(placed(s, k).drop_last() =~= s);
    }
}

/// Out-of-order keys are fine: what a track built from them samples is what the latest key
/// at or before the time says, as if they had been searched one by one.
pub proof fn track_order_does_not_matter<P>(keys: Seq<CursorKey<P>>, t: i32)
    ensures
        key_at(by_time(keys), t) == holding(keys, t),
        is_by_time(by_time(keys)),
    decreases keys.len(),
{
    if keys.len() > 0 {
        track_order_does_not_matter(keys.drop_last(), t);
        placed_is_by_time(by_time(keys.drop_last()), keys.last());
        placed_key_at(by_time(keys.drop_last()), keys.last(), t);
    }
}

/// How many of the first `k` steps advance the scene.
pub open spec fn advances(pre: nat, total: nat, k: nat) -> nat
    decreases k,
{
    if k == 0 {
        0
    } else {
        advances(pre, total, (k - 1) as nat) + (if step_at(pre, total, (k - 1) as nat) == Some(
            OfflineStep::Advance,
        ) {
            1nat
        } else {
            0
        })
    }
}

proof fn advances_so_far(pre: nat, total: nat, k: nat)
    requires
        total >= 1,
        k + 1 <= 2 * pre + 3 * total,
    ensures
        advances(pre, total, k) == (if k < 2 * pre {
            k / 2
        } else {
            pre + ((k - 2 * pre) as nat) / 3
        }),
    decreases k,
{
    if k > 0 {
        advances_so_far(pre, total, (k - 1) as nat);
    }
}

/// The frames of a rendering are a replay: frame `i` is rendered exactly once, after the
/// scene has advanced `pre + i` times, however the window is cut out of the timeline.
pub proof fn frames_replay_the_timeline(pre: nat, total: nat, i: nat)
    requires
        i < total <= usize::MAX,
    ensures
        step_at(pre, total, 2 * pre + 3 * i + 1) == Some(
            OfflineStep::Render { frame: i as usize },
        ),
        advances(pre, total, 2 * pre + 3 * i + 1) == pre + i,
        forall|k: nat| #[trigger]
            step_at(pre, total, k) == Some(OfflineStep::Render { frame: i as usize }) ==> k == 2
                * pre + 3 * i + 1,
{
    advances_so_far(pre, total, 2 * pre + 3 * i + 1);
    assert forall|k: nat| #[trigger]
        step_at(pre, total, k) == Some(OfflineStep::Render { frame: i as usize }) implies k == 2
        * pre + 3 * i + 1 by {
        let m = (k - 2 * pre) as nat;
        assert(m % 3 == 1 && m / 3 < total);
        assert(((m / 3) as usize) as nat == m / 3);
    }
}

/// Frames of a sequence never share a file.
pub proof fn frame_files_differ(out: Seq<char>, i: nat, j: nat, total: nat)
    requires
        i < j < total,
    ensures
        frame_file(out, i, total) != frame_file(out, j, total),
{
    let a = text::zero_filled(i, 4);
    let b = text::zero_filled(j, 4);
    text::decimal_reads_back(i, 4);
    text::decimal_reads_back(j, 4);
    reveal_strlit("frame_");
    reveal_strlit("/");
    let fa = "frame_"@ + a + ".png"@;
    let fb = "frame_"@ + b + ".png"@;
    assert(fa[0] == 'f' && fb[0] == 'f');
    assert(fa.take(1)[0] == 'f' && fb.take(1)[0] == 'f');
    assert("/"@[0] == '/');
    let head = if out.len() == 0 {
        Seq::empty()
    } else if out.last() == '/' {
        out
    } else {
        out + "/"@
    };
    assert(session::joined_path(out, fa) =~= head + fa);
    assert(session::joined_path(out, fb) =~= head + fb);
    if head + fa == head + fb {
        assert((head + fa).len() == (head + fb).len());
        assert(a.len() == b.len());
        assert forall|d: int| 0 <= d < a.len() implies a[d] == b[d] by {
            assert((head + fa)[head.len() + 6 + d] == a[d]);
            assert((head + fb)[head.len() + 6 + d] == b[d]);
        }
        assert(a =~= b);
    }
}

/// A track shows where the cursor was last put: at any time the position of the latest key that
/// is not ahead of it, in whatever order the keys were given, and none before the first.
pub proof fn track_shows_the_latest_key<P: Copy>()
    ensures
        forall|keys: Vec<CursorKey<P>>, track: CursorTrack<P>, t: i32, r: Option<P>|
            #![trigger call_ensures(CursorTrack::<P>::new, (keys,), track), call_ensures(
                CursorTrack::<P>::sample,
                (&track, t),
                r,
            )]
            call_ensures(CursorTrack::<P>::new, (keys,), track) && call_ensures(
                CursorTrack::<P>::sample,
                (&track, t),
                r,
            ) ==> {
                &&& (forall|i: int| 0 <= i < keys@.len() ==> (#[trigger] keys@[i]).time > t)
                    ==> r is None
                &&& (exists|i: int| 0 <= i < keys@.len() && (#[trigger] keys@[i]).time <= t)
                    ==> exists|i: int|
                    {
                        &&& 0 <= i < keys@.len()
                        &&& (#[trigger] keys@[i]).time <= t
                        &&& keys@[i].position == r
                        &&& forall|j: int|
                            0 <= j < keys@.len() && (#[trigger] keys@[j]).time <= t ==> keys@[j].time
                                <= keys@[i].time
                    }
            },
{
    assert forall|keys: Vec<CursorKey<P>>, track: CursorTrack<P>, t: i32, r: Option<P>|
        #![trigger call_ensures(CursorTrack::<P>::new, (keys,), track), call_ensures(
            CursorTrack::<P>::sample,
            (&track, t),
            r,
        )]
        call_ensures(CursorTrack::<P>::new, (keys,), track) && call_ensures(
            CursorTrack::<P>::sample,
            (&track, t),
            r,
        ) implies {
        &&& (forall|i: int| 0 <= i < keys@.len() ==> (#[trigger] keys@[i]).time > t) ==> r is None
        &&& (exists|i: int| 0 <= i < keys@.len() && (#[trigger] keys@[i]).time <= t) ==> exists|i: int|
            {
                &&& 0 <= i < keys@.len()
                &&& (#[trigger] keys@[i]).time <= t
                &&& keys@[i].position == r
                &&& forall|j: int|
                    0 <= j < keys@.len() && (#[trigger] keys@[j]).time <= t ==> keys@[j].time
                        <= keys@[i].time
            }
    } by {
        track_order_does_not_matter(keys@, t);
        holding_is_latest(keys@, t);
    }
}

proof fn holding_is_latest<P>(keys: Seq<CursorKey<P>>, t: i32)
    ensures
        holding(keys, t) is None ==> forall|i: int|
            0 <= i < keys.len() ==> (#[trigger] keys[i]).time > t,
        holding(keys, t) is Some ==> exists|i: int|
            {
                &&& 0 <= i < keys.len()
                &&& (#[trigger] keys[i]).time <= t
                &&& keys[i] == holding(keys, t)->0
                &&& forall|j: int|
                    0 <= j < keys.len() && (#[trigger] keys[j]).time <= t ==> keys[j].time
                        <= keys[i].time
            },
    decreases keys.len(),
{
    if keys.len() > 0 {
        let d = keys.drop_last();
        let n = d.len() as int;
        holding_is_latest(d, t);
        assert forall|i: int| 0 <= i < n implies #[trigger] keys[i] == d[i] by {}
        assert(keys[n] == keys.last());
        if holding(d, t) is Some {
            let i = choose|i: int|
                {
                    &&& 0 <= i < d.len()
                    &&& (#[trigger] d[i]).time <= t
                    &&& d[i] == holding(d, t)->0
                    &&& forall|j: int|
                        0 <= j < d.len() && (#[trigger] d[j]).time <= t ==> d[j].time <= d[i].time
                };
            assert(keys[i] == d[i]);
            if keys[n].time <= t && d[i].time <= keys[n].time {
                assert forall|j: int| 0 <= j < keys.len() && (#[trigger] keys[j]).time <= t implies
                    keys[j].time <= keys[n].time by {
                    if j < n {
                        assert(d[j].time <= d[i].time);
                    }
                }
            } else {
                assert forall|j: int| 0 <= j < keys.len() && (#[trigger] keys[j]).time <= t implies
                    keys[j].time <= keys[i].time by {
                    if j < n {
                        assert(d[j].time <= d[i].time);
                    }
                }
            }
        } else {
            assert forall|j: int| 0 <= j < n implies (#[trigger] keys[j]).time > t by {
                assert(d[j].time > t);
            }
        }
    }
}

/// The frames of a sequence are numbered files in the directory that is given; a single frame
/// goes to the very file that is given, where that is one.
pub proof fn frames_go_to_numbered_files()
    ensures
        forall|out: &str, i: usize, total: usize, r: String| #[trigger]
            call_ensures(frame_path, (out, i, total), r) ==> {
                let numbered = "frame_"@ + text::zero_filled(i as nat, 4) + ".png"@;
                &&& total != 1 ==> laws::is_path_in(r@, out@, numbered)
                &&& total == 1 ==> r@ == out@ || laws::is_path_in(r@, out@, numbered)
            },
{
    assert forall|out: &str, i: usize, total: usize, r: String| #[trigger]
        call_ensures(frame_path, (out, i, total), r) implies {
        let numbered = "frame_"@ + text::zero_filled(i as nat, 4) + ".png"@;
        &&& total != 1 ==> laws::is_path_in(r@, out@, numbered)
        &&& total == 1 ==> r@ == out@ || laws::is_path_in(r@, out@, numbered)
    } by {
        laws::joined_is_path_in(
            out@,
            "frame_"@ + text::zero_filled(i as nat, 4) + ".png"@,
        );
    }
}

/// A rendering replays what came before it, an interval at a time, and then renders frame after
/// frame: before every frame and every interval the UI is driven, behind each of them time goes
/// on, and after the last frame it is over.
pub proof fn rendering_goes_step_by_step()
    ensures
        forall|p: &mut OfflinePlan, r: Option<OfflineStep>| #[trigger]
            call_ensures(OfflinePlan::next_step, (p,), r) && (*p).wf() ==> {
                let at = (*p).at() as int;
                let pre = (*p).pre as int;
                let total = (*p).total as int;
                let m = at - 2 * pre;
                &&& (*final(p)).pre == pre && (*final(p)).total == total
                &&& r is Some ==> (*final(p)).at() == at + 1
                &&& r is None ==> (*final(p)).at() == at
                &&& r is None <==> m >= 3 * total - 1
                &&& m < 0 && at % 2 == 0 ==> r is Some && r->0 is DriveUi
                &&& m < 0 && at % 2 == 1 ==> r is Some && r->0 is Advance
                &&& 0 <= m < 3 * total - 1 && m % 3 == 0 ==> r is Some && r->0 is DriveUi
                &&& 0 <= m < 3 * total - 1 && m % 3 == 1 ==> r is Some && r->0 is Render
                    && r->0->frame == m / 3
                &&& 0 <= m < 3 * total - 1 && m % 3 == 2 ==> r is Some && r->0 is Advance
            },
        forall|pre: usize, total: usize, r: OfflinePlan| #[trigger]
            call_ensures(OfflinePlan::new, (pre, total), r) ==> r.at() == 0 && r.pre == pre
                && r.total == total,
{
    assert forall|p: &mut OfflinePlan, r: Option<OfflineStep>| #[trigger]
        call_ensures(OfflinePlan::next_step, (p,), r) && (*p).wf() && r is Some
            && r->0 is Render implies r->0->frame == ((*p).at() - 2 * (*p).pre) / 3 by {
        let m = (*p).at() - 2 * (*p).pre;
        assert(0 <= m / 3 < (*p).total);
    }
}

proof fn plain_base_name(p: Seq<char>)
    requires
        forall|k: int| 0 <= k < p.len() ==> #[trigger] p[k] != '/',
    ensures
        base_name(p) == p,
        without_tail(p) == p,
    decreases p.len(),
{
    if p.len() > 0 {
        assert(p[p.len() - 1] != '/');
        if p.len() > 1 {
            assert(p[p.len() - 2] != '/');
        }
        plain_base_name(p.drop_last());
        assert(p.drop_last().push(p.last()) =~= p);
    } else {
        assert(p =~= Seq::empty());
    }
}

proof fn picture_names(name: Seq<char>, ending: Seq<char>)
    requires
        name.len() > 0,
        forall|k: int| 0 <= k < name.len() ==> #[trigger] name[k] != '/',
        ending == ".png"@ || ending == ".PNG"@,
    ensures
        names_png(name + ending),
{
    reveal_strlit(".png");
    reveal_strlit(".PNG");
    let p = name + ending;
    assert forall|k: int| 0 <= k < p.len() implies #[trigger] p[k] != '/' by {
        if k < name.len() {
            assert(p[k] == name[k]);
        } else {
            assert(p[k] == ending[k - name.len()]);
        }
    }
    plain_base_name(p);
    assert(p.skip(p.len() - 4) =~= ending);
    text::lowering_changes_capitals();
    assert(text::lowered(ending) =~= ".png"@);
}

proof fn plain_name_is_no_picture(name: Seq<char>)
    requires
        forall|k: int| 0 <= k < name.len() ==> #[trigger] name[k] != '/' && name[k] != '.',
    ensures
        !names_png(name),
{
    reveal_strlit(".png");
    plain_base_name(name);
    if name.len() > 4 {
        let t = name.skip(name.len() - 4);
        assert(t[0] == name[name.len() - 4]);
        assert(text::lowered(t)[0] == text::ascii_lower(t[0]));
        assert(".png"@[0] == '.');
    }
}

/// A single frame goes to the very file that is given where its name says that it is a picture,
/// whatever the case of its ending; where there is no point in what is given it is a directory.
pub proof fn a_picture_is_its_own_file(name: Seq<char>)
    requires
        name.len() > 0,
        forall|k: int| 0 <= k < name.len() ==> #[trigger] name[k] != '/' && name[k] != '.',
    ensures
        forall|out: &str, i: usize, r: String| #[trigger]
            call_ensures(frame_path, (out, i, 1), r) ==> {
                &&& out@ == name + ".png"@ || out@ == name + ".PNG"@ ==> r@ == out@
                &&& out@ == name ==> r@ != out@
            },
{
    picture_names(name, ".png"@);
    picture_names(name, ".PNG"@);
    reveal_strlit(".png");
    reveal_strlit(".PNG");
    plain_name_is_no_picture(name);
    reveal_strlit("/");
    reveal_strlit("frame_");
    assert forall|out: &str, i: usize, r: String| #[trigger]
        call_ensures(frame_path, (out, i, 1), r) && out@ == name implies r@ != out@ by {
        let file = "frame_"@ + text::zero_filled(i as nat, 4) + ".png"@;
        assert(file[0] == 'f');
        assert(!text::has_prefix(file, "/"@)) by {
            if text::has_prefix(file, "/"@) {
                assert(file.take(1)[0] == "/"@[0]);
            }
        }
        assert(r@.len() > name.len());
    }
}

} // verus!
