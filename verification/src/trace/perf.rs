//! The performance overlay: a live readout over the last frames.

use vstd::prelude::*;
use vstd::slice::slice_subrange;

use crate::keys::Key;
use crate::text;
use crate::text::text_eq;

verus! {

/// Most samples that the readout takes per kind. The buffers are of this fixed size, so
/// that a readout allocates nothing; a larger window is silently cut to it.
pub const MAX_WINDOW: usize = 256;

// ---------------------------------------------------------------------------
// Sample buffer
// ---------------------------------------------------------------------------

/// The sum of the times.
pub open spec fn total(s: Seq<u64>) -> nat
    decreases s.len(),
{
    if s.len() == 0 {
        0
    } else {
        total(s.drop_last()) + s.last() as nat
    }
}

/// The mean of the times, rounded down; zero for none.
pub open spec fn mean_of(s: Seq<u64>) -> nat {
    if s.len() == 0 {
        0
    } else {
        total(s) / s.len()
    }
}

/// Times in ascending order.
pub open spec fn ascending(s: Seq<u64>) -> Seq<u64> {
    s.sort_by(|a: u64, b: u64| a <= b)
}

/// The time at place `rank` of the times in ascending order, the last one where `rank` is
/// past the end; zero for none.
pub open spec fn ranked(s: Seq<u64>, rank: nat) -> u64 {
    if s.len() == 0 {
        0
    } else if rank < s.len() {
        ascending(s)[rank as int]
    } else {
        ascending(s)[s.len() - 1]
    }
}

/// The first samples, as many as a buffer holds.
pub open spec fn first_samples(s: Seq<u64>) -> Seq<u64> {
    if s.len() <= MAX_WINDOW {
        s
    } else {
        s.take(MAX_WINDOW as int)
    }
}

/// Fixed-capacity sample buffer. A push beyond the capacity is dropped; the caller is
/// expected to cap its window to match.
pub struct StackBuf {
    pub samples: [u64; 256],
    pub len: usize,
}

impl View for StackBuf {
    type V = Seq<u64>;

    open spec fn view(&self) -> Seq<u64> {
        self.samples@.take(self.len as int)
    }
}

impl StackBuf {
    pub open spec fn wf(&self) -> bool {
        self.len <= MAX_WINDOW
    }

    pub fn new() -> (r: StackBuf)
        ensures
            r.wf(),
            r@ == Seq::<u64>::empty(),
    {
        let r = StackBuf { samples: [0;256], len: 0 };
        assert(r@ =~= Seq::empty());
        r
    }

    pub fn push(&mut self, ns: u64)
        requires
            old(self).wf(),
        ensures
            final(self).wf(),
            final(self)@ == (if old(self)@.len() < MAX_WINDOW {
                old(self)@.push(ns)
            } else {
                old(self)@
            }),
    {
        if self.len < MAX_WINDOW {
            let ghost before = self@;
            self.samples[self.len] = ns;
            self.len += 1;
            assert(self@ =~= before.push(ns));
        }
    }

    /// The samples, in the order they came.
    pub fn as_slice(&self) -> (r: &[u64])
        requires
            self.wf(),
        ensures
            r@ == self@,
    {
        let r = slice_subrange(self.samples.as_slice(), 0, self.len);
        assert(r@ =~= self@);
        r
    }

    pub fn mean(&self) -> (r: u64)
        requires
            self.wf(),
        ensures
            r == mean_of(self@),
    {
        if self.len == 0 {
            return 0;
        }
        let ghost s = self@;
        let mut sum: u128 = 0;
        let mut i: usize = 0;
        assert(s.take(0) =~= Seq::empty());
        while i < self.len
            invariant
                self.wf(),
                s == self@,
                i <= self.len,
                sum == total(s.take(i as int)),
                sum <= i * u64::MAX,
            decreases self.len - i,
        {
            assert(s.take(i + 1).drop_last() =~= s.take(i as int));
            assert(s.take(i + 1).last() == self.samples@[i as int]);
            sum = sum + self.samples[i] as u128;
            i += 1;
        }
        assert(s.take(self.len as int) =~= s);
        let n: u128 = self.len as u128;
        assert(sum / n <= u64::MAX) by (nonlinear_arith)
            requires
                sum <= n * u64::MAX,
                n > 0,
        ;
        (sum / n) as u64
    }

    /// The sample at place `rank` in ascending order, clamped to the last. A copy is
    /// sorted: the samples themselves keep the order they came in.
    pub fn percentile(&self, rank: usize) -> (r: u64)
        requires
            self.wf(),
        ensures
            r == ranked(self@, rank as nat),
    {
        if self.len == 0 {
            return 0;
        }
        let mut local: [u64; 256] = self.samples;
        sort_first(&mut local, self.len);
        proof {
            ascending_is_unique(self@, local@.take(self.len as int));
        }
        if rank < self.len {
            local[rank]
        } else {
            local[self.len - 1]
        }
    }

    /// The 99th percentile: the sample that 99 of 100 others do not exceed.
    pub fn p99(&self) -> (r: u64)
        requires
            self.wf(),
        ensures
            r == ranked(self@, self@.len() * 99 / 100),
    {
        self.percentile(self.len * 99 / 100)
    }
}

pub open spec fn is_ascending(s: Seq<u64>) -> bool {
    forall|i: int, j: int| 0 <= i < j < s.len() ==> s[i] <= s[j]
}

proof fn ascending_is_unique(s: Seq<u64>, t: Seq<u64>)
    requires
        is_ascending(t),
        t.to_multiset() == s.to_multiset(),
    ensures
        ascending(s) == t,
{
    let leq = |a: u64, b: u64| a <= b;
    s.lemma_sort_by_ensures(leq);
    vstd::seq_lib::lemma_sorted_unique(ascending(s), t, leq);
}

/// Neighbours that change places leave the same elements.
proof fn swapped_neighbours(s: Seq<u64>, i: int)
    requires
        0 < i < s.len(),
    ensures
        s.update(i - 1, s[i]).update(i, s[i - 1]).to_multiset() == s.to_multiset(),
{
    broadcast use vstd::seq_lib::group_to_multiset_ensures;

    let head = s.take(i - 1);
    let tail = s.skip(i + 1);
    let t = s.update(i - 1, s[i]).update(i, s[i - 1]);
    assert(s =~= head.push(s[i - 1]).push(s[i]) + tail);
    assert(t =~= head.push(s[i]).push(s[i - 1]) + tail);
    vstd::seq_lib::lemma_multiset_commutative(head.push(s[i - 1]).push(s[i]), tail);
    vstd::seq_lib::lemma_multiset_commutative(head.push(s[i]).push(s[i - 1]), tail);
    assert(head.push(s[i - 1]).push(s[i]).to_multiset() =~= head.push(s[i]).push(
        s[i - 1],
    ).to_multiset());
}

/// Sort the first `n` samples where they stand.
fn sort_first(a: &mut [u64; 256], n: usize)
    requires
        n <= MAX_WINDOW,
    ensures
        is_ascending(final(a)@.take(n as int)),
        final(a)@.take(n as int).to_multiset() == old(a)@.take(n as int).to_multiset(),
{
    let ghost whole = a@.take(n as int);
    let mut i: usize = 0;
    while i < n
        invariant
            i <= n <= MAX_WINDOW,
            is_ascending(a@.take(i as int)),
            a@.take(n as int).to_multiset() == whole.to_multiset(),
        decreases n - i,
    {
        let mut at: usize = i;
        let ghost sorted = a@.take(i as int);
        assert forall|j: int, k: int| 0 <= j < k <= i && k != at implies a@[j] <= a@[k] by {
            assert(sorted[j] <= sorted[k]);
        }
        while at > 0 && a[at - 1] > a[at]
            invariant
                at <= i < n <= MAX_WINDOW,
                forall|j: int, k: int| 0 <= j < k <= i && k != at ==> a@[j] <= a@[k],
                forall|k: int| at < k <= i ==> a@[at as int] <= a@[k],
                a@.take(n as int).to_multiset() == whole.to_multiset(),
            decreases at,
        {
            let ghost before = a@;
            let x: u64 = a[at];
            a[at] = a[at - 1];
            a[at - 1] = x;
            proof {
                swapped_neighbours(before.take(n as int), at as int);
                assert(a@.take(n as int) =~= before.take(n as int).update(
                    at - 1,
                    before[at as int],
                ).update(at as int, before[at - 1]));
            }
            at -= 1;
        }
        i += 1;
    }
}

// ---------------------------------------------------------------------------
// Frames and their summary
// ---------------------------------------------------------------------------

/// One timed section of a frame.
pub struct SectionTime {
    pub name: String,
    pub elapsed: u64,
}

/// What a frame allocated.
#[derive(Copy, Clone, Debug, PartialEq, Eq, Structural)]
pub struct AllocDelta {
    pub alloc_count: u64,
    pub alloc_bytes: u64,
    pub net_bytes: i64,
}

/// What the collector kept of one frame.
pub struct FrameSample {
    pub sections: Vec<SectionTime>,
    pub heap_delta_bytes: Option<i64>,
    pub allocs: Option<AllocDelta>,
}

/// The last `window` frames.
pub open spec fn recent(history: Seq<FrameSample>, window: nat) -> Seq<FrameSample> {
    if history.len() <= window {
        history
    } else {
        history.skip(history.len() - window)
    }
}

/// The times of the sections called `name`, in order.
pub open spec fn named_times(sections: Seq<SectionTime>, name: Seq<char>) -> Seq<u64>
    decreases sections.len(),
{
    if sections.len() == 0 {
        Seq::empty()
    } else {
        let before = named_times(sections.drop_last(), name);
        if sections.last().name@ == name {
            before.push(sections.last().elapsed)
        } else {
            before
        }
    }
}

/// The times of all sections called `name` over these frames, in order.
pub open spec fn frame_times(frames: Seq<FrameSample>, name: Seq<char>) -> Seq<u64>
    decreases frames.len(),
{
    if frames.len() == 0 {
        Seq::empty()
    } else {
        frame_times(frames.drop_last(), name) + named_times(frames.last().sections@, name)
    }
}

/// The heap deltas of the frames that have one.
pub open spec fn heap_deltas(frames: Seq<FrameSample>) -> Seq<i64>
    decreases frames.len(),
{
    if frames.len() == 0 {
        Seq::empty()
    } else {
        match frames.last().heap_delta_bytes {
            Some(d) => heap_deltas(frames.drop_last()).push(d),
            None => heap_deltas(frames.drop_last()),
        }
    }
}

/// The allocation deltas of the frames that have one.
pub open spec fn alloc_deltas(frames: Seq<FrameSample>) -> Seq<AllocDelta>
    decreases frames.len(),
{
    if frames.len() == 0 {
        Seq::empty()
    } else {
        match frames.last().allocs {
            Some(d) => alloc_deltas(frames.drop_last()).push(d),
            None => alloc_deltas(frames.drop_last()),
        }
    }
}

/// The largest of zero and the numbers.
pub open spec fn peak(s: Seq<int>) -> int
    decreases s.len(),
{
    if s.len() == 0 {
        0
    } else if s.last() > peak(s.drop_last()) {
        s.last()
    } else {
        peak(s.drop_last())
    }
}

/// `n`, kept between `lo` and `hi`.
pub open spec fn clamped(n: int, lo: int, hi: int) -> int {
    if n < lo {
        lo
    } else if n > hi {
        hi
    } else {
        n
    }
}

/// The numbers added up one by one, each sum kept between `lo` and `hi`.
pub open spec fn clamped_sum(s: Seq<int>, lo: int, hi: int) -> int
    decreases s.len(),
{
    if s.len() == 0 {
        0
    } else {
        clamped(clamped_sum(s.drop_last(), lo, hi) + s.last(), lo, hi)
    }
}

pub open spec fn as_ints(s: Seq<i64>) -> Seq<int> {
    s.map_values(|d: i64| d as int)
}

pub open spec fn alloc_counts(s: Seq<AllocDelta>) -> Seq<int> {
    s.map_values(|d: AllocDelta| d.alloc_count as int)
}

pub open spec fn alloc_sizes(s: Seq<AllocDelta>) -> Seq<int> {
    s.map_values(|d: AllocDelta| d.alloc_bytes as int)
}

pub open spec fn alloc_nets(s: Seq<AllocDelta>) -> Seq<int> {
    s.map_values(|d: AllocDelta| d.net_bytes as int)
}

fn add_clamped(a: i64, b: i64) -> (r: i64)
    ensures
        r == clamped(a + b, i64::MIN as int, i64::MAX as int),
{
    let sum: i128 = a as i128 + b as i128;
    if sum < i64::MIN as i128 {
        i64::MIN
    } else if sum > i64::MAX as i128 {
        i64::MAX
    } else {
        sum as i64
    }
}

/// What the readout shows, before it is laid out.
pub struct PerfSummary {
    /// Times between frames: the total cadence.
    pub cadence: StackBuf,
    /// Our own work per frame.
    pub frames: StackBuf,
    /// The gap left to the host.
    pub idles: StackBuf,
    pub heap_count: usize,
    pub heap_peak: i64,
    pub heap_net: i64,
    pub alloc_frames: usize,
    pub alloc_count_sum: u64,
    pub alloc_peak_bytes: u64,
    pub alloc_net_bytes: i64,
}

impl PerfSummary {
    pub open spec fn wf(&self) -> bool {
        self.cadence.wf() && self.frames.wf() && self.idles.wf()
    }

    /// Is this the summary of these frames?
    pub open spec fn sums_up(&self, frames: Seq<FrameSample>) -> bool {
        let heap = as_ints(heap_deltas(frames));
        let allocs = alloc_deltas(frames);
        &&& self.wf()
        &&& self.cadence@ == first_samples(frame_times(frames, "between-frames"@))
        &&& self.frames@ == first_samples(frame_times(frames, "frame"@))
        &&& self.idles@ == first_samples(frame_times(frames, "idle"@))
        &&& self.heap_count == heap.len()
        &&& self.heap_peak == peak(heap)
        &&& self.heap_net == clamped_sum(heap, i64::MIN as int, i64::MAX as int)
        &&& self.alloc_frames == allocs.len()
        &&& self.alloc_count_sum == clamped_sum(alloc_counts(allocs), 0, u64::MAX as int)
        &&& self.alloc_peak_bytes == peak(alloc_sizes(allocs))
        &&& self.alloc_net_bytes == clamped_sum(
            alloc_nets(allocs),
            i64::MIN as int,
            i64::MAX as int,
        )
    }

    fn empty() -> (r: PerfSummary)
        ensures
            r.sums_up(Seq::empty()),
    {
        let r = PerfSummary {
            cadence: StackBuf::new(),
            frames: StackBuf::new(),
            idles: StackBuf::new(),
            heap_count: 0,
            heap_peak: 0,
            heap_net: 0,
            alloc_frames: 0,
            alloc_count_sum: 0,
            alloc_peak_bytes: 0,
            alloc_net_bytes: 0,
        };
        assert(as_ints(heap_deltas(Seq::empty())) =~= Seq::empty());
        r
    }

    fn take_sections(&mut self, sections: &Vec<SectionTime>)
        requires
            old(self).wf(),
        ensures
            final(self).wf(),
            *final(self) == (PerfSummary {
                cadence: final(self).cadence,
                frames: final(self).frames,
                idles: final(self).idles,
                ..*old(self)
            }),
            final(self).cadence@ == first_samples(
                old(self).cadence@ + named_times(sections@, "between-frames"@),
            ),
            final(self).frames@ == first_samples(
                old(self).frames@ + named_times(sections@, "frame"@),
            ),
            final(self).idles@ == first_samples(
                old(self).idles@ + named_times(sections@, "idle"@),
            ),
    {
        let ghost all = sections@;
        let ghost c0 = self.cadence@;
        let ghost f0 = self.frames@;
        let ghost i0 = self.idles@;
        let mut i: usize = 0;
        proof {
            reveal_strlit("between-frames");
            reveal_strlit("frame");
            reveal_strlit("idle");
            assert(all.take(0) =~= Seq::empty());
            assert(c0 + Seq::empty() =~= c0);
            assert(f0 + Seq::empty() =~= f0);
            assert(i0 + Seq::empty() =~= i0);
        }
        while i < sections.len()
            invariant
                i <= sections.len(),
                all == sections@,
                self.wf(),
                *self == (PerfSummary {
                    cadence: self.cadence,
                    frames: self.frames,
                    idles: self.idles,
                    ..*old(self)
                }),
                "between-frames"@.len() != "frame"@.len(),
                "frame"@.len() != "idle"@.len(),
                "between-frames"@.len() != "idle"@.len(),
                self.cadence@ == first_samples(
                    c0 + named_times(all.take(i as int), "between-frames"@),
                ),
                self.frames@ == first_samples(f0 + named_times(all.take(i as int), "frame"@)),
                self.idles@ == first_samples(i0 + named_times(all.take(i as int), "idle"@)),
            decreases sections.len() - i,
        {
            let section = &sections[i];
            proof {
                assert(all.take(i + 1).drop_last() =~= all.take(i as int));
                assert(all.take(i + 1).last() == section);
                let ns = section.elapsed;
                one_more_sample(c0 + named_times(all.take(i as int), "between-frames"@), ns);
                one_more_sample(f0 + named_times(all.take(i as int), "frame"@), ns);
                one_more_sample(i0 + named_times(all.take(i as int), "idle"@), ns);
                assert(c0 + named_times(all.take(i as int), "between-frames"@).push(ns) =~= (c0
                    + named_times(all.take(i as int), "between-frames"@)).push(ns));
                assert(f0 + named_times(all.take(i as int), "frame"@).push(ns) =~= (f0
                    + named_times(all.take(i as int), "frame"@)).push(ns));
                assert(i0 + named_times(all.take(i as int), "idle"@).push(ns) =~= (i0
                    + named_times(all.take(i as int), "idle"@)).push(ns));
            }
            let name = section.name.as_str();
            if text_eq(name, "between-frames") {
                self.cadence.push(section.elapsed);
            } else if text_eq(name, "frame") {
                self.frames.push(section.elapsed);
            } else if text_eq(name, "idle") {
                self.idles.push(section.elapsed);
            }
            i += 1;
        }
        assert(all.take(sections.len() as int) =~= all);
    }

    fn take_frame(&mut self, frame: &FrameSample, Ghost(before): Ghost<Seq<FrameSample>>)
        requires
            old(self).sums_up(before),
            before.len() < usize::MAX,
        ensures
            final(self).sums_up(before.push(*frame)),
    {
        let ghost after = before.push(*frame);
        proof {
            assert(after.drop_last() =~= before);
            heap_count_bounded(before);
            first_samples_extend(
                frame_times(before, "between-frames"@),
                named_times(frame.sections@, "between-frames"@),
            );
            first_samples_extend(
                frame_times(before, "frame"@),
                named_times(frame.sections@, "frame"@),
            );
            first_samples_extend(
                frame_times(before, "idle"@),
                named_times(frame.sections@, "idle"@),
            );
        }
        self.take_sections(&frame.sections);
        if let Some(d) = frame.heap_delta_bytes {
            proof {
                let s = as_ints(heap_deltas(before));
                assert(as_ints(heap_deltas(after)) =~= s.push(d as int));
                assert(s.push(d as int).drop_last() =~= s);
            }
            self.heap_count += 1;
            if d > self.heap_peak {
                self.heap_peak = d;
            }
            self.heap_net = add_clamped(self.heap_net, d);
        }
        if let Some(a) = frame.allocs {
            proof {
                let s = alloc_deltas(before);
                assert(alloc_counts(alloc_deltas(after)) =~= alloc_counts(s).push(
                    a.alloc_count as int,
                ));
                assert(alloc_sizes(alloc_deltas(after)) =~= alloc_sizes(s).push(
                    a.alloc_bytes as int,
                ));
                assert(alloc_nets(alloc_deltas(after)) =~= alloc_nets(s).push(a.net_bytes as int));
                assert(alloc_counts(s).push(a.alloc_count as int).drop_last() =~= alloc_counts(s));
                assert(alloc_sizes(s).push(a.alloc_bytes as int).drop_last() =~= alloc_sizes(s));
                assert(alloc_nets(s).push(a.net_bytes as int).drop_last() =~= alloc_nets(s));
            }
            self.alloc_frames += 1;
            self.alloc_count_sum = self.alloc_count_sum.saturating_add(a.alloc_count);
            if a.alloc_bytes > self.alloc_peak_bytes {
                self.alloc_peak_bytes = a.alloc_bytes;
            }
            self.alloc_net_bytes = add_clamped(self.alloc_net_bytes, a.net_bytes);
        }
    }

    /// Allocations per frame that allocated, rounded down.
    pub fn mean_allocs(&self) -> (r: u64)
        requires
            self.alloc_frames > 0,
        ensures
            r == self.alloc_count_sum as nat / self.alloc_frames as nat,
    {
        self.alloc_count_sum / self.alloc_frames as u64
    }
}

proof fn heap_count_bounded(frames: Seq<FrameSample>)
    ensures
        heap_deltas(frames).len() <= frames.len(),
        alloc_deltas(frames).len() <= frames.len(),
    decreases frames.len(),
{
    if frames.len() > 0 {
        heap_count_bounded(frames.drop_last());
    }
}

proof fn one_more_sample(s: Seq<u64>, ns: u64)
    ensures
        first_samples(s.push(ns)) == (if first_samples(s).len() < MAX_WINDOW {
            first_samples(s).push(ns)
        } else {
            first_samples(s)
        }),
{
    assert(first_samples(s.push(ns)) =~= (if first_samples(s).len() < MAX_WINDOW {
        first_samples(s).push(ns)
    } else {
        first_samples(s)
    }));
}

proof fn first_samples_extend(s: Seq<u64>, t: Seq<u64>)
    ensures
        first_samples(first_samples(s) + t) == first_samples(s + t),
{
    assert(first_samples(first_samples(s) + t) =~= first_samples(s + t));
}

/// Sum up the last `window` frames.
pub fn summarize(history: &[FrameSample], window: usize) -> (r: PerfSummary)
    ensures
        r.sums_up(recent(history@, window as nat)),
{
    let n: usize = history.len();
    let start: usize = if n > window {
        n - window
    } else {
        0
    };
    let ghost frames = recent(history@, window as nat);
    let mut out = PerfSummary::empty();
    let mut i: usize = start;
    assert(frames.take(0) =~= Seq::empty());
    while i < n
        invariant
            start <= i <= n == history@.len(),
            frames == history@.skip(start as int),
            out.sums_up(frames.take(i - start)),
        decreases n - i,
    {
        assert(frames.take(i + 1 - start) =~= frames.take(i - start).push(history@[i as int]));
        out.take_frame(&history[i], Ghost(frames.take(i - start)));
        i += 1;
    }
    assert(frames.take(n - start) =~= frames);
    out
}

// ---------------------------------------------------------------------------
// Severity
// ---------------------------------------------------------------------------

/// How bad a number is. The host gives each level a color.
#[derive(Copy, Clone, Debug, PartialEq, Eq, Structural)]
pub enum Severity {
    Good,
    Fair,
    Warn,
    Bad,
}

/// How bad a number of allocations per frame is.
pub fn count_severity(n: u64) -> (r: Severity)
    ensures
        r == (if n >= 1_000 {
            Severity::Bad
        } else if n >= 100 {
            Severity::Warn
        } else if n >= 10 {
            Severity::Fair
        } else {
            Severity::Good
        }),
{
    if n >= 1_000 {
        Severity::Bad
    } else if n >= 100 {
        Severity::Warn
    } else if n >= 10 {
        Severity::Fair
    } else {
        Severity::Good
    }
}

/// How bad the worst time of a session is: from 50 and from 100 milliseconds on, which is
/// three and six frames of a 60 Hz display.
pub fn worst_severity(ns: u64) -> (r: Severity)
    ensures
        r == (if ns >= 100_000_000 {
            Severity::Bad
        } else if ns >= 50_000_000 {
            Severity::Warn
        } else {
            Severity::Good
        }),
{
    if ns >= 100_000_000 {
        Severity::Bad
    } else if ns >= 50_000_000 {
        Severity::Warn
    } else {
        Severity::Good
    }
}

/// The magnitude of `n`.
pub open spec fn magnitude(n: int) -> int {
    if n < 0 {
        -n
    } else {
        n
    }
}

fn byte_level(bytes: i64, warn_mb: i64) -> (r: Severity)
    requires
        0 <= warn_mb <= 10,
    ensures
        r == (if magnitude(bytes as int) >= 10 * 1_048_576 {
            Severity::Bad
        } else if magnitude(bytes as int) >= warn_mb * 1_048_576 {
            Severity::Warn
        } else {
            Severity::Good
        }),
{
    if bytes >= 10_485_760 || bytes <= -10_485_760 {
        Severity::Bad
    } else if bytes >= warn_mb * 1_048_576 || bytes <= -(warn_mb * 1_048_576) {
        Severity::Warn
    } else {
        Severity::Good
    }
}

/// How bad a size or a growth of the Rust heap is: from one and from ten megabytes on.
pub fn byte_severity(bytes: i64) -> (r: Severity)
    ensures
        r == (if magnitude(bytes as int) >= 10 * 1_048_576 {
            Severity::Bad
        } else if magnitude(bytes as int) >= 1_048_576 {
            Severity::Warn
        } else {
            Severity::Good
        }),
{
    byte_level(bytes, 1)
}

/// How bad a growth of the host's heap is: from two and from ten megabytes on.
pub fn heap_severity(bytes: i64) -> (r: Severity)
    ensures
        r == (if magnitude(bytes as int) >= 10 * 1_048_576 {
            Severity::Bad
        } else if magnitude(bytes as int) >= 2 * 1_048_576 {
            Severity::Warn
        } else {
            Severity::Good
        }),
{
    byte_level(bytes, 2)
}

// ---------------------------------------------------------------------------
// The overlay
// ---------------------------------------------------------------------------

/// Live frame-time overlay. A key toggles it, unless it is pinned; while it is visible it
/// sums up the recent frames.
#[derive(Copy, Clone, Debug, PartialEq, Eq, Structural)]
pub struct PerfOverlay {
    pub visible: bool,
    /// Visible whatever the toggle key does.
    pub pinned: bool,
    pub toggle_key: Key,
    /// Number of recent frames the readout summarizes over.
    pub window: usize,
}

impl Default for PerfOverlay {
    fn default() -> (r: PerfOverlay)
        ensures
            r == (PerfOverlay {
                visible: false,
                pinned: false,
                toggle_key: Key::F(3),
                window: 60,
            }),
    {
        PerfOverlay { visible: false, pinned: false, toggle_key: Key::F(3), window: 60 }
    }
}

impl PerfOverlay {
    pub fn new() -> (r: PerfOverlay)
        ensures
            r == (PerfOverlay {
                visible: false,
                pinned: false,
                toggle_key: Key::F(3),
                window: 60,
            }),
    {
        PerfOverlay::default()
    }

    /// Override the toggle key.
    pub fn with_toggle_key(self, key: Key) -> (r: PerfOverlay)
        ensures
            r == (PerfOverlay { toggle_key: key, ..self }),
    {
        let mut r = self;
        r.toggle_key = key;
        r
    }

    /// Force the overlay visible regardless of the toggle state. For embedded demos where
    /// the readout should always show.
    pub fn always_visible(self) -> (r: PerfOverlay)
        ensures
            r == (PerfOverlay { visible: true, pinned: true, ..self }),
    {
        let mut r = self;
        r.visible = true;
        r.pinned = true;
        r
    }

    /// The window that counts: at most `MAX_WINDOW` frames.
    pub open spec fn spec_window(&self) -> nat {
        if self.window <= MAX_WINDOW {
            self.window as nat
        } else {
            MAX_WINDOW as nat
        }
    }

    /// The overlay after a frame in which the toggle key did or did not go down.
    pub open spec fn toggled(self, pressed: bool) -> PerfOverlay {
        PerfOverlay { visible: self.pinned || (self.visible != pressed), ..self }
    }

    /// One frame of the overlay. `toggle_pressed` is whether the toggle key went down; it
    /// is looked at even while hidden, or the key could not bring the overlay back. Returns
    /// what to show: nothing while hidden, and nothing before the first frame is recorded.
    pub fn show(&mut self, toggle_pressed: bool, history: &[FrameSample]) -> (r: Option<
        PerfSummary,
    >)
        ensures
            *final(self) == old(self).toggled(toggle_pressed),
            r is Some <==> final(self).visible && recent(
                history@,
                old(self).spec_window(),
            ).len() > 0,
            r is Some ==> r->0.sums_up(recent(history@, old(self).spec_window())),
    {
        if self.pinned {
            self.visible = true;
        } else if toggle_pressed {
            self.visible = !self.visible;
        }
        if !self.visible {
            return None;
        }
        let window: usize = if self.window <= MAX_WINDOW {
            self.window
        } else {
            MAX_WINDOW
        };
        if window == 0 || history.len() == 0 {
            return None;
        }
        Some(summarize(history, window))
    }
}

// ---------------------------------------------------------------------------
// Laws
// ---------------------------------------------------------------------------

/// Pressing the key twice leaves an overlay as it was; a pinned one shows whatever is
/// pressed.
pub proof fn toggling_twice_restores(overlay: PerfOverlay, pressed: bool)
    requires
        overlay.pinned ==> overlay.visible,
    ensures
        overlay.toggled(pressed).toggled(pressed) == overlay,
        overlay.pinned ==> overlay.toggled(pressed).visible,
{
}

/// A percentile is one of the samples, and no rank gives less than a lower rank.
pub proof fn percentiles_rise(s: Seq<u64>, low: nat, high: nat)
    requires
        s.len() > 0,
        low <= high,
    ensures
        ranked(s, low) <= ranked(s, high),
        s.contains(ranked(s, low)),
{
    let leq = |a: u64, b: u64| a <= b;
    s.lemma_sort_by_ensures(leq);
    let t = ascending(s);
    broadcast use vstd::seq_lib::group_to_multiset_ensures;

    assert(t.to_multiset() == s.to_multiset());
    assert(t.to_multiset().len() == t.len() && s.to_multiset().len() == s.len());
    let i = if low < s.len() {
        low as int
    } else {
        s.len() - 1
    };
    let j = if high < s.len() {
        high as int
    } else {
        s.len() - 1
    };
    assert(t[i] <= t[j]) by {
        assert(vstd::relations::sorted_by(t, leq));
        if i < j {
            assert(leq(t[i], t[j]));
        }
    }
    assert(t.contains(t[i]));
    assert(s.to_multiset().count(t[i]) > 0);
}

/// A mean is that of the samples, to the nanosecond below; and a percentile is the sample of that
/// rank when they are put in order, the greatest where there are fewer.
pub proof fn statistics_are_those_of_the_samples()
    ensures
        forall|b: &StackBuf, r: u64| #[trigger]
            call_ensures(StackBuf::mean, (b,), r) ==> {
                &&& b@.len() == 0 ==> r == 0
                &&& b@.len() > 0 ==> r * b@.len() <= total(b@) < (r + 1) * b@.len()
            },
        forall|b: &StackBuf, rank: usize, r: u64| #[trigger]
            call_ensures(StackBuf::percentile, (b, rank), r) ==> is_ranked(b@, rank as nat, r),
        forall|b: &StackBuf, r: u64| #[trigger]
            call_ensures(StackBuf::p99, (b,), r) ==> is_ranked(b@, b@.len() * 99 / 100, r),
{
    assert forall|b: &StackBuf, r: u64| #[trigger]
        call_ensures(StackBuf::mean, (b,), r) && b@.len() > 0 implies r * b@.len() <= total(b@) < (r
        + 1) * b@.len() by {
        let n = b@.len() as int;
        let t = total(b@) as int;
        assert((t / n) * n <= t < (t / n + 1) * n) by (nonlinear_arith)
            requires
                n > 0,
                t >= 0,
        ;
    }
    assert forall|s: Seq<u64>, rank: nat| true implies is_ranked(
        s,
        rank,
        #[trigger] ranked(s, rank),
    ) by {
        ranked_is_ranked(s, rank);
    }
}

/// Is this the sample of that rank, the greatest where there are fewer, and none where there is
/// none?
pub open spec fn is_ranked(s: Seq<u64>, rank: nat, r: u64) -> bool {
    &&& s.len() == 0 ==> r == 0
    &&& s.len() > 0 ==> exists|t: Seq<u64>|
        {
            &&& #[trigger] t.to_multiset() == s.to_multiset()
            &&& t.len() == s.len()
            &&& forall|i: int, j: int| 0 <= i < j < t.len() ==> t[i] <= t[j]
            &&& r == t[if rank < t.len() {
                rank as int
            } else {
                t.len() - 1
            }]
        }
}

proof fn ranked_is_ranked(s: Seq<u64>, rank: nat)
    ensures
        is_ranked(s, rank, ranked(s, rank)),
{
    broadcast use vstd::seq_lib::group_to_multiset_ensures;

    let leq = |a: u64, b: u64| a <= b;
    s.lemma_sort_by_ensures(leq);
    let t = ascending(s);
    assert(t.to_multiset() == s.to_multiset());
    assert(t.len() == s.len()) by {
        assert(t.to_multiset().len() == t.len() && s.to_multiset().len() == s.len());
    }
    assert forall|i: int, j: int| 0 <= i < j < t.len() implies t[i] <= t[j] by {
        assert(leq(t[i], t[j]));
    }
}

/// The times of sections of a name are those of the sections that have it, and no others.
pub proof fn named_times_are_of_that_name(sections: Seq<SectionTime>, name: Seq<char>)
    ensures
        forall|i: int|
            0 <= i < sections.len() && (#[trigger] sections[i]).name@ == name ==> named_times(
                sections,
                name,
            ).contains(sections[i].elapsed),
        named_times(sections, name).len() <= sections.len(),
        (forall|i: int| 0 <= i < sections.len() ==> (#[trigger] sections[i]).name@ == name)
            ==> named_times(sections, name).len() == sections.len(),
        (forall|i: int| 0 <= i < sections.len() ==> (#[trigger] sections[i]).name@ != name)
            ==> named_times(sections, name).len() == 0,
    decreases sections.len(),
{
    if sections.len() > 0 {
        let d = sections.drop_last();
        let n = d.len() as int;
        named_times_are_of_that_name(d, name);
        let all = named_times(sections, name);
        let before = named_times(d, name);
        assert(sections[n] == sections.last());
        assert forall|i: int|
            0 <= i < sections.len() && (#[trigger] sections[i]).name@ == name implies all.contains(
            sections[i].elapsed,
        ) by {
            if i < n {
                assert(d[i] == sections[i]);
                let k = choose|k: int| 0 <= k < before.len() && before[k] == d[i].elapsed;
                assert(all[k] == before[k]);
            } else {
                assert(all[all.len() - 1] == sections[i].elapsed);
            }
        }
        if forall|i: int| 0 <= i < sections.len() ==> (#[trigger] sections[i]).name@ == name {
            assert forall|i: int| 0 <= i < d.len() implies (#[trigger] d[i]).name@ == name by {
                assert(sections[i].name@ == name);
            }
        }
        if forall|i: int| 0 <= i < sections.len() ==> (#[trigger] sections[i]).name@ != name {
            assert forall|i: int| 0 <= i < d.len() implies (#[trigger] d[i]).name@ != name by {
                assert(sections[i].name@ != name);
            }
        }
    }
}

/// Is the second summary that of one more frame than the first? Its times come behind the others
/// while there is room, its heap change adds to the net and may be the peak, and so do its
/// allocations.
pub open spec fn adds_frame(a: PerfSummary, b: PerfSummary, f: FrameSample) -> bool {
    &&& b.frames@ == first_samples(a.frames@ + named_times(f.sections@, "frame"@)) || a.frames@.len()
        == MAX_WINDOW
    &&& b.cadence@ == first_samples(a.cadence@ + named_times(f.sections@, "between-frames"@))
        || a.cadence@.len() == MAX_WINDOW
    &&& b.idles@ == first_samples(a.idles@ + named_times(f.sections@, "idle"@)) || a.idles@.len()
        == MAX_WINDOW
    &&& f.heap_delta_bytes is None ==> b.heap_count == a.heap_count && b.heap_peak == a.heap_peak
        && b.heap_net == a.heap_net
    &&& f.heap_delta_bytes is Some ==> {
        let d = f.heap_delta_bytes->0;
        &&& b.heap_count == a.heap_count + 1
        &&& b.heap_peak >= d && b.heap_peak >= a.heap_peak
        &&& b.heap_peak == d || b.heap_peak == a.heap_peak
        &&& i64::MIN <= a.heap_net + d <= i64::MAX ==> b.heap_net == a.heap_net + d
    }
    &&& f.allocs is None ==> b.alloc_frames == a.alloc_frames && b.alloc_count_sum
        == a.alloc_count_sum && b.alloc_peak_bytes == a.alloc_peak_bytes && b.alloc_net_bytes
        == a.alloc_net_bytes
    &&& f.allocs is Some ==> {
        let d = f.allocs->0;
        &&& b.alloc_frames == a.alloc_frames + 1
        &&& a.alloc_count_sum + d.alloc_count <= u64::MAX ==> b.alloc_count_sum
            == a.alloc_count_sum + d.alloc_count
        &&& b.alloc_peak_bytes >= d.alloc_bytes && b.alloc_peak_bytes >= a.alloc_peak_bytes
        &&& b.alloc_peak_bytes == d.alloc_bytes || b.alloc_peak_bytes == a.alloc_peak_bytes
        &&& i64::MIN <= a.alloc_net_bytes + d.net_bytes <= i64::MAX ==> b.alloc_net_bytes
            == a.alloc_net_bytes + d.net_bytes
    }
}

/// A summary counts every frame of its window, and no other: one more frame adds just what it
/// took, and without any frame there is nothing.
pub proof fn summaries_count_every_frame(f: FrameSample)
    ensures
        forall|
            few: &[FrameSample],
            w: usize,
            a: PerfSummary,
            more: &[FrameSample],
            v: usize,
            b: PerfSummary,
        |
            #![trigger call_ensures(summarize, (few, w), a), call_ensures(summarize, (more, v), b)]
            call_ensures(summarize, (few, w), a) && call_ensures(summarize, (more, v), b) && more@
                == few@.push(f) && few@.len() <= w && more@.len() <= v ==> adds_frame(a, b, f),
        forall|none: &[FrameSample], w: usize, r: PerfSummary| #[trigger]
            call_ensures(summarize, (none, w), r) && (none@.len() == 0 || w == 0) ==> r.frames@.len()
                == 0 && r.cadence@.len() == 0 && r.idles@.len() == 0 && r.heap_count == 0
                && r.heap_peak == 0 && r.heap_net == 0 && r.alloc_frames == 0 && r.alloc_count_sum
                == 0 && r.alloc_peak_bytes == 0 && r.alloc_net_bytes == 0,
        forall|
            all: &[FrameSample],
            w: usize,
            a: PerfSummary,
            last: &[FrameSample],
            v: usize,
            b: PerfSummary,
        |
            #![trigger call_ensures(summarize, (all, w), a), call_ensures(summarize, (last, v), b)]
            call_ensures(summarize, (all, w), a) && call_ensures(summarize, (last, v), b)
                && last@.len() == w && w <= all@.len() && last@.is_suffix_of(all@) && w <= v
                ==> a.frames@ == b.frames@ && a.heap_net == b.heap_net && a.alloc_count_sum
                == b.alloc_count_sum && a.heap_peak == b.heap_peak,
{
    assert forall|
        few: &[FrameSample],
        w: usize,
        a: PerfSummary,
        more: &[FrameSample],
        v: usize,
        b: PerfSummary,
    |
        #![trigger call_ensures(summarize, (few, w), a), call_ensures(summarize, (more, v), b)]
        call_ensures(summarize, (few, w), a) && call_ensures(summarize, (more, v), b) && more@
            == few@.push(f) && few@.len() <= w && more@.len() <= v implies adds_frame(a, b, f) by {
        frame_adds_up(few@, f, a, b);
    }
    assert forall|none: &[FrameSample], w: usize, r: PerfSummary| #[trigger]
        call_ensures(summarize, (none, w), r) && (none@.len() == 0 || w == 0) implies r.frames@.len()
        == 0 && r.cadence@.len() == 0 && r.idles@.len() == 0 && r.heap_count == 0 && r.heap_peak
        == 0 && r.heap_net == 0 && r.alloc_frames == 0 && r.alloc_count_sum == 0
        && r.alloc_peak_bytes == 0 && r.alloc_net_bytes == 0 by {
        let e = recent(none@, w as nat);
        assert(e.len() == 0);
        assert(heap_deltas(e).len() == 0 && alloc_deltas(e).len() == 0);
    }
    assert forall|
        all: &[FrameSample],
        w: usize,
        a: PerfSummary,
        last: &[FrameSample],
        v: usize,
        b: PerfSummary,
    |
        #![trigger call_ensures(summarize, (all, w), a), call_ensures(summarize, (last, v), b)]
        call_ensures(summarize, (all, w), a) && call_ensures(summarize, (last, v), b) && last@.len()
            == w && w <= all@.len() && last@.is_suffix_of(all@) && w <= v implies a.frames@
        == b.frames@ && a.heap_net == b.heap_net && a.alloc_count_sum == b.alloc_count_sum
        && a.heap_peak == b.heap_peak by {
        assert(recent(all@, w as nat) =~= last@);
    }
}

proof fn frame_adds_up(few: Seq<FrameSample>, f: FrameSample, a: PerfSummary, b: PerfSummary)
    requires
        a.sums_up(few),
        b.sums_up(few.push(f)),
    ensures
        adds_frame(a, b, f),
{
    let more = few.push(f);
    assert(more.drop_last() =~= few);
    first_samples_of_more(frame_times(few, "frame"@), named_times(f.sections@, "frame"@));
    first_samples_of_more(
        frame_times(few, "between-frames"@),
        named_times(f.sections@, "between-frames"@),
    );
    first_samples_of_more(frame_times(few, "idle"@), named_times(f.sections@, "idle"@));
    let h0 = as_ints(heap_deltas(few));
    let h1 = as_ints(heap_deltas(more));
    if f.heap_delta_bytes is Some {
        assert(h1 =~= h0.push(f.heap_delta_bytes->0 as int));
        assert(h1.drop_last() =~= h0);
    }
    let a0 = alloc_deltas(few);
    let a1 = alloc_deltas(more);
    if f.allocs is Some {
        let d = f.allocs->0;
        assert(alloc_counts(a1) =~= alloc_counts(a0).push(d.alloc_count as int));
        assert(alloc_counts(a1).drop_last() =~= alloc_counts(a0));
        assert(alloc_sizes(a1) =~= alloc_sizes(a0).push(d.alloc_bytes as int));
        assert(alloc_sizes(a1).drop_last() =~= alloc_sizes(a0));
        assert(alloc_nets(a1) =~= alloc_nets(a0).push(d.net_bytes as int));
        assert(alloc_nets(a1).drop_last() =~= alloc_nets(a0));
    }
}

proof fn first_samples_of_more(s: Seq<u64>, more: Seq<u64>)
    ensures
        first_samples(s + more) == first_samples(first_samples(s) + more) || first_samples(s).len()
            == MAX_WINDOW,
{
}

/// How bad a severity is.
pub open spec fn badness(s: Severity) -> int {
    match s {
        Severity::Good => 0,
        Severity::Fair => 1,
        Severity::Warn => 2,
        Severity::Bad => 3,
    }
}

/// More is never better: of two measures the greater is at least as bad, and there are measures
/// of both ends.
pub proof fn more_is_never_better()
    ensures
        forall|n: u64, r: Severity, m: u64, s: Severity|
            #![trigger call_ensures(count_severity, (n,), r), call_ensures(count_severity, (m,), s)]
            call_ensures(count_severity, (n,), r) && call_ensures(count_severity, (m,), s) && n <= m
                ==> badness(r) <= badness(s),
        forall|n: u64, r: Severity| #[trigger]
            call_ensures(count_severity, (n,), r) ==> (n < 10 <==> r is Good) && (n >= 1_000
                <==> r is Bad) && (10 <= n < 100 <==> r is Fair),
        forall|n: u64, r: Severity, m: u64, s: Severity|
            #![trigger call_ensures(worst_severity, (n,), r), call_ensures(worst_severity, (m,), s)]
            call_ensures(worst_severity, (n,), r) && call_ensures(worst_severity, (m,), s) && n <= m
                ==> badness(r) <= badness(s),
        forall|n: u64, r: Severity| #[trigger]
            call_ensures(worst_severity, (n,), r) ==> (n < 50_000_000 <==> r is Good) && (n
                >= 100_000_000 <==> r is Bad),
        forall|n: i64, r: Severity, m: i64, s: Severity|
            #![trigger call_ensures(byte_severity, (n,), r), call_ensures(byte_severity, (m,), s)]
            call_ensures(byte_severity, (n,), r) && call_ensures(byte_severity, (m,), s) && (-m <= n
                <= m || m <= n <= -m) ==> badness(r) <= badness(s),
        forall|n: i64, r: Severity| #[trigger]
            call_ensures(byte_severity, (n,), r) ==> (-1_048_576 < n < 1_048_576 <==> r is Good) && (
            -10_485_760 < n < 10_485_760 <==> !(r is Bad)),
        forall|n: i64, r: Severity| #[trigger]
            call_ensures(heap_severity, (n,), r) ==> (-2_097_152 < n < 2_097_152 <==> r is Good) && (
            -10_485_760 < n < 10_485_760 <==> !(r is Bad)),
{
}

/// The overlay shows while it is on: its key turns it on and off, but not where it is pinned, and
/// while it is off, or there are no frames, there is nothing to show.
pub proof fn overlay_shows_while_it_is_on()
    ensures
        forall|o: &mut PerfOverlay, pressed: bool, history: &[FrameSample], r: Option<PerfSummary>|
            #[trigger]
            call_ensures(PerfOverlay::show, (o, pressed, history), r) ==> {
                &&& o.pinned ==> final(o).visible
                &&& !o.pinned && pressed ==> final(o).visible == !o.visible
                &&& !o.pinned && !pressed ==> final(o).visible == o.visible
                &&& final(o).pinned == o.pinned && final(o).window == o.window
                    && final(o).toggle_key == o.toggle_key
                &&& !final(o).visible || history@.len() == 0 || o.window == 0 ==> r is None
                &&& final(o).visible && history@.len() > 0 && o.window > 0 ==> r is Some
            },
        forall|o: PerfOverlay, r: PerfOverlay| #[trigger]
            call_ensures(PerfOverlay::always_visible, (o,), r) ==> r.visible && r.pinned && r.window
                == o.window,
{
}

/// The mean number of allocations is that of the frames that told of them.
pub proof fn mean_allocations_are_a_frame()
    ensures
        forall|s: &PerfSummary, r: u64| #[trigger]
            call_ensures(PerfSummary::mean_allocs, (s,), r) && s.alloc_frames > 0 ==> r
                * s.alloc_frames <= s.alloc_count_sum < (r + 1) * s.alloc_frames,
        forall|o: PerfOverlay, key: Key, r: PerfOverlay| #[trigger]
            call_ensures(PerfOverlay::with_toggle_key, (o, key), r) ==> r.toggle_key == key
                && r.visible == o.visible && r.pinned == o.pinned && r.window == o.window,
{
    assert forall|s: &PerfSummary, r: u64| #[trigger]
        call_ensures(PerfSummary::mean_allocs, (s,), r) && s.alloc_frames > 0 implies r
        * s.alloc_frames <= s.alloc_count_sum < (r + 1) * s.alloc_frames by {
        let n = s.alloc_frames as int;
        let t = s.alloc_count_sum as int;
        assert((t / n) * n <= t < (t / n + 1) * n) by (nonlinear_arith)
            requires
                n > 0,
                t >= 0,
        ;
    }
}

} // verus!
