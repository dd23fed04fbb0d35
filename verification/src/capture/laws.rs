//! What holds of a capture session as a whole.

use vstd::arithmetic::div_mod;
use vstd::prelude::*;

use crate::capture::encode::GifFrame;
use crate::capture::palette::{index_pixels, train_global_palette, GlobalPalette, WarmupFrame};
use crate::capture::pixels;
use crate::capture::pixels::CaptureError;
use crate::capture::session;
use crate::capture::session::{
    ActionView, Capture, CaptureView, FrameAction, FrameView, GifFrameView, GifView, GifWriter,
    OneShotView, PlanView, SequencePlan, SequenceView, Step, StepView, WriterView,
};
use crate::capture::{
    CaptureFormat, CaptureRequest, CaptureStage, PaletteMode, ParamsView, RequestView,
    SequenceParams,
};
use crate::text;

verus! {

/// A GIF stream after a list of frames, and everything that went out meanwhile.
pub open spec fn fed_all(g: GifView, frames: Seq<FrameView>) -> (GifView, Seq<GifFrameView>)
    decreases frames.len(),
{
    if frames.len() == 0 {
        (g, Seq::empty())
    } else {
        let before = fed_all(g, frames.drop_last());
        let step = before.0.fed(frames.last());
        (step.0, before.1 + step.1)
    }
}

/// A fresh stream that is to train a palette on `target` frames.
pub open spec fn fresh_global(g: GifView, target: u32) -> bool {
    &&& g.palette_mode == PaletteMode::Global
    &&& g.warming == Some((Seq::<FrameView>::empty(), target))
    &&& g.palette is None
    &&& target > 0
}

/// What a global-palette stream looks like after `frames`: still collecting, or trained on
/// the first `target` of them with every frame sent.
proof fn global_stream_so_far(g: GifView, target: u32, frames: Seq<FrameView>)
    requires
        fresh_global(g, target),
    ensures
        frames.len() < target ==> fed_all(g, frames) == (
            GifView { warming: Some((frames, target)), ..g },
            Seq::<GifFrameView>::empty(),
        ),
        frames.len() >= target ==> ({
            let p = Some(session::training(frames.take(target as int)));
            fed_all(g, frames) == (
                GifView { warming: None, palette: p, ..g },
                g.all_dressed(frames, p),
            )
        }),
    decreases frames.len(),
{
    if frames.len() == 0 {
        assert(frames =~= Seq::empty());
        assert(GifView { warming: Some((frames, target)), ..g } =~= g);
    } else {
        let before = frames.drop_last();
        let f = frames.last();
        global_stream_so_far(g, target, before);
        assert(before.push(f) =~= frames);
        let p = Some(session::training(frames.take(target as int)));
        if frames.len() < target {
        } else if frames.len() == target {
            assert(frames.take(target as int) =~= frames);
            let mid = GifView { warming: Some((before, target)), ..g };
            assert(mid.all_dressed(frames, p) =~= g.all_dressed(frames, p));
            assert(Seq::<GifFrameView>::empty() + g.all_dressed(frames, p) =~= g.all_dressed(
                frames,
                p,
            ));
        } else {
            assert(before.take(target as int) =~= frames.take(target as int));
            let mid = GifView { warming: None, palette: p, ..g };
            assert(mid.dressed(f, p) == g.dressed(f, p));
            assert(g.all_dressed(before, p) + seq![g.dressed(f, p)] =~= g.all_dressed(frames, p));
        }
    }
}

/// A recording with a global palette loses nothing: what went out while recording, and what
/// a stop then flushes, is every captured frame in order, and all of them share one palette.
pub proof fn global_palette_keeps_every_frame(g: GifView, target: u32, frames: Seq<FrameView>)
    requires
        fresh_global(g, target),
        frames.len() > 0,
    ensures
        ({
            let n = if frames.len() < target {
                frames.len() as int
            } else {
                target as int
            };
            fed_all(g, frames).1 + fed_all(g, frames).0.flushed() == g.all_dressed(
                frames,
                Some(session::training(frames.take(n))),
            )
        }),
{
    global_stream_so_far(g, target, frames);
    let r = fed_all(g, frames);
    if frames.len() < target {
        assert(frames.take(frames.len() as int) =~= frames);
        let mid = GifView { warming: Some((frames, target)), ..g };
        let p = Some(session::training(frames));
        assert(mid.all_dressed(frames, p) =~= g.all_dressed(frames, p));
        assert(r.1 + r.0.flushed() =~= g.all_dressed(frames, p));
    } else {
        assert(r.0.flushed() =~= Seq::empty());
        assert(r.1 + r.0.flushed() =~= r.1);
    }
}

/// With local palettes every frame goes out as it comes.
pub proof fn local_palettes_send_every_frame(g: GifView, frames: Seq<FrameView>)
    requires
        g.palette_mode == PaletteMode::Local,
    ensures
        fed_all(g, frames) == (g, g.all_dressed(frames, None)),
    decreases frames.len(),
{
    if frames.len() == 0 {
        assert(g.all_dressed(frames, None) =~= Seq::empty());
    } else {
        local_palettes_send_every_frame(g, frames.drop_last());
        assert(g.all_dressed(frames.drop_last(), None) + seq![g.dressed(frames.last(), None)]
            =~= g.all_dressed(frames, None));
    }
}

/// The single-file formats never record two stages.
pub proof fn one_file_one_stage(v: CaptureView, p: ParamsView, unix_secs: u64)
    requires
        p.format != CaptureFormat::Png,
    ensures
        ({
            let s = v.plan(p, unix_secs).sequence.stage;
            !(s.spec_wants_pre() && s.spec_wants_post())
        }),
{
}

/// A running sequence goes on: neither a one-shot nor another start ends or changes it, and
/// neither does a frame. Only a stop or a toggle does.
pub proof fn sequence_runs_until_stopped(
    v: CaptureView,
    r: RequestView,
    unix_secs: u64,
    is_pre: bool,
    f: FrameView,
    now: u64,
)
    requires
        v.sequence is Some,
        r is OneShot || r is StartSequence,
    ensures
        session::requested(v, r, unix_secs).0.sequence == v.sequence,
        !(session::requested(v, r, unix_secs).1 is Start),
        v.consumed(is_pre, f).0.sequence is Some,
        v.advanced(now).sequence is Some,
{
}

/// A stop after a one-shot that was asked for during a sequence ends the sequence, as it
/// would have without the one-shot; the snapshot still waits.
pub proof fn stop_ends_the_sequence_beside_a_snapshot(
    v: CaptureView,
    stage: CaptureStage,
    dir: Option<Seq<char>>,
    name: Option<Seq<char>>,
    unix_secs: u64,
)
    requires
        v.sequence is Some,
    ensures
        ({
            let w = session::requested(
                v,
                RequestView::OneShot { stage, dir, name },
                unix_secs,
            ).0;
            let s = session::requested(w, RequestView::Stop, unix_secs);
            &&& s.1 == session::requested(v, RequestView::Stop, unix_secs).1
            &&& s.0.sequence is None
            &&& s.0.one_shot == w.one_shot
        }),
{
}

/// A snapshot beside a sequence takes nothing from it: its own file is written first, and
/// the sequence then does with the frames that it would have had what it does without a
/// snapshot.
pub proof fn snapshot_beside_a_sequence(v: CaptureView, is_pre: bool, f: FrameView)
    requires
        v.sequence is Some,
    ensures
        ({
            let alone = CaptureView { one_shot: None, ..v }.consumed(is_pre, f);
            let shot = CaptureView { sequence: None, ..v }.consumed(is_pre, f);
            let both = v.consumed(is_pre, f);
            &&& both.0.one_shot == shot.0.one_shot
            &&& if v.takes(is_pre, f.captured_at) {
                both.1 == shot.1 + alone.1 && both.0.sequence == alone.0.sequence
            } else {
                both.1 == shot.1 && both.0.sequence == v.sequence
            }
        }),
{
    let alone = CaptureView { one_shot: None, ..v }.consumed(is_pre, f);
    let shot = CaptureView { sequence: None, ..v }.consumed(is_pre, f);
    if v.takes(is_pre, f.captured_at) {
        assert(v.consumed(is_pre, f).1 =~= shot.1 + alone.1);
    }
}

/// A toggle stops a running sequence, as a stop does.
pub proof fn toggle_stops_a_sequence(v: CaptureView, p: ParamsView, unix_secs: u64)
    requires
        v.sequence is Some,
    ensures
        session::requested(v, RequestView::Toggle { params: p }, unix_secs) == session::requested(
            v,
            RequestView::Stop,
            unix_secs,
        ),
        session::requested(v, RequestView::Toggle { params: p }, unix_secs).0.sequence is None,
{
}

/// A toggle starts a sequence when none is running, as a start would.
pub proof fn toggle_starts_when_none_runs(v: CaptureView, p: ParamsView, unix_secs: u64)
    requires
        v.sequence is None,
    ensures
        session::requested(v, RequestView::Toggle { params: p }, unix_secs) == session::requested(
            v,
            RequestView::StartSequence { params: p },
            unix_secs,
        ),
{
}

/// Stopping an idle session changes nothing.
pub proof fn stop_when_idle_is_a_no_op(v: CaptureView, unix_secs: u64)
    requires
        v.sequence is None,
        v.one_shot is None,
    ensures
        session::requested(v, RequestView::Stop, unix_secs).0 == v,
{
}

/// After a stop no sequence runs; without a snapshot beside it there is then no status, and
/// no tap is wanted.
pub proof fn stopped_is_idle(v: CaptureView, unix_secs: u64)
    ensures
        ({
            let w = session::requested(v, RequestView::Stop, unix_secs).0;
            &&& w.sequence is None
            &&& v.sequence is None || v.one_shot is None ==> w.status_text() is None && !w.wants(
                true,
            ) && !w.wants(false)
        }),
{
}

/// Captured frames of a sequence are at least the interval apart.
pub proof fn captures_keep_their_distance(v: CaptureView, interval: u64, at: u64, now: u64)
    requires
        v.sequence is Some,
        v.sequence->0.fps_interval == Some(interval),
        v.one_shot is None || v.sequence->0.is_due(at),
        at <= now,
        v.advanced(at).sequence->0.is_due(now),
    ensures
        now - at >= interval,
{
}

/// A one-shot writes each stage it was asked for once, and is then over.
pub proof fn one_shot_writes_each_stage_once(
    v: CaptureView,
    stage: CaptureStage,
    dir: Option<Seq<char>>,
    name: Option<Seq<char>>,
    unix_secs: u64,
    pre: FrameView,
    post: FrameView,
    now: u64,
)
    requires
        v.sequence is None,
    ensures
        ({
            let shot: OneShotView = v.snapshot(stage, dir, name, unix_secs);
            let a = CaptureView { one_shot: Some(shot), ..v };
            let b = a.consumed(true, pre);
            let c = b.0.consumed(false, post);
            let nothing = Seq::<ActionView>::empty();
            &&& b.1 == (if stage.spec_wants_pre() {
                seq![ActionView::WritePng { path: shot.path_pre->0, frame: pre }]
            } else {
                nothing
            })
            &&& c.1 == (if stage.spec_wants_post() {
                seq![ActionView::WritePng { path: shot.path_post->0, frame: post }]
            } else {
                nothing
            })
            &&& b.0.consumed(true, pre).1 == nothing
            &&& c.0.consumed(false, post).1 == nothing
            &&& c.0.advanced(now).one_shot is None
        }),
{
}

/// Every frame that a PNG sequence takes is written, whatever came before.
pub proof fn png_sequence_writes_every_frame(v: CaptureView, is_pre: bool, f: FrameView)
    requires
        v.takes(is_pre, f.captured_at),
        v.sequence->0.writer is Png,
    ensures
        v.consumed(is_pre, f).0.sequence == v.sequence,
        v.consumed(is_pre, f).1.last() == (ActionView::WritePng {
            path: session::sequence_file(
                v.sequence->0.writer->dir,
                is_pre,
                v.sequence->0.frame_count,
            ),
            frame: f,
        }),
{
}

// ---------------------------------------------------------------------------
// Plans
// ---------------------------------------------------------------------------

/// The rate that a number of frames per second stands for; 0 counts as 1.
pub open spec fn rate(fps: int) -> int {
    if fps == 0 {
        1
    } else {
        fps
    }
}

/// Is `nanos` the time between two frames at this rate, to the nearest nanosecond?
pub open spec fn spaces_frames(nanos: int, fps: int) -> bool {
    -rate(fps) <= 2 * (nanos * rate(fps)) - 2_000_000_000 <= rate(fps)
}

/// Is `cs` the time between two frames at this rate, to the nearest hundredth of a second, or
/// one where that is none?
pub open spec fn delays_frames(cs: int, fps: int) -> bool {
    &&& cs >= 1
    &&& cs > 1 ==> -rate(fps) <= 2 * (cs * rate(fps)) - 200 <= rate(fps)
    &&& cs == 1 ==> 3 * rate(fps) > 200
}

/// The time between captured frames, and the delay of a GIF frame, are those of the rate.
pub proof fn rates_give_times()
    ensures
        forall|fps: u16, r: u64| #[trigger]
            call_ensures(pixels::fps_to_interval, (fps,), r) ==> spaces_frames(
                r as int,
                fps as int,
            ),
        forall|fps: u16, r: u16| #[trigger]
            call_ensures(pixels::fps_to_centiseconds, (fps,), r) ==> delays_frames(
                r as int,
                fps as int,
            ),
{
    assert forall|fps: u16, r: u64| #[trigger]
        call_ensures(pixels::fps_to_interval, (fps,), r) implies spaces_frames(
        r as int,
        fps as int,
    ) by {
        interval_spaces_frames(fps);
    }
    assert forall|fps: u16, r: u16| #[trigger]
        call_ensures(pixels::fps_to_centiseconds, (fps,), r) implies delays_frames(
        r as int,
        fps as int,
    ) by {
        delay_delays_frames(fps);
    }
}

proof fn interval_spaces_frames(fps: u16)
    ensures
        spaces_frames(pixels::interval_of_fps(fps as nat) as int, fps as int),
        pixels::interval_of_fps(fps as nat) <= u64::MAX,
{
    let f = rate(fps as int);
    let q = pixels::interval_of_fps(fps as nat) as int;
    if f != 1024 {
        let n = 2_000_000_000 + f;
        div_mod::lemma_fundamental_div_mod(n, 2 * f);
        div_mod::lemma_mod_bound(n, 2 * f);
        assert(2 * f * q == 2 * (q * f)) by (nonlinear_arith);
        assert(q <= n) by (nonlinear_arith)
            requires
                2 * (q * f) <= n,
                f >= 1,
                n >= 0,
        ;
    }
}

proof fn delay_delays_frames(fps: u16)
    ensures
        delays_frames(pixels::delay_of_fps(fps as nat) as int, fps as int),
        pixels::delay_of_fps(fps as nat) <= u16::MAX,
{
    let f = rate(fps as int);
    let n = 200 + f;
    let q = n / (2 * f);
    div_mod::lemma_fundamental_div_mod(n, 2 * f);
    div_mod::lemma_mod_bound(n, 2 * f);
    assert(2 * f * q == 2 * (q * f)) by (nonlinear_arith);
    assert(q >= 0) by (nonlinear_arith)
        requires
            2 * (q * f) + 2 * f > n,
            f >= 1,
            n >= 0,
    ;
    assert(q <= n) by (nonlinear_arith)
        requires
            2 * (q * f) <= n,
            f >= 1,
            n >= 0,
    ;
    if q <= 1 {
        assert(q * f <= f) by (nonlinear_arith)
            requires
                q <= 1,
                f >= 1,
        ;
    }
    if q > 101 {
        assert(2 * (q * f) >= 204 * f) by (nonlinear_arith)
            requires
                q >= 102,
                f >= 1,
        ;
    }
}

/// Is `path` that of `name` in `dir`? A name that starts at the root stands for itself, and so
/// does one in no directory.
pub open spec fn is_path_in(path: Seq<char>, dir: Seq<char>, name: Seq<char>) -> bool {
    &&& dir.len() == 0 || seq!['/'].is_prefix_of(name) ==> path == name
    &&& dir.len() > 0 && !seq!['/'].is_prefix_of(name) && dir.last() == '/' ==> path == dir + name
    &&& dir.len() > 0 && !seq!['/'].is_prefix_of(name) && dir.last() != '/' ==> path == dir
        + seq!['/'] + name
}

/// A joined path is that of the name in the directory.
pub proof fn joined_is_path_in(dir: Seq<char>, name: Seq<char>)
    ensures
        is_path_in(session::joined_path(dir, name), dir, name),
{
    reveal_strlit("/");
    assert("/"@ =~= seq!['/']);
    if name.len() >= 1 {
        assert(name.take(1) =~= name.subrange(0, 1));
    }
    assert(text::has_prefix(name, "/"@) <==> seq!['/'].is_prefix_of(name));
}

/// Does a directory and a file stand for this path? What is not given is the session's
/// directory, and the example's name with the time.
pub open spec fn is_named(
    v: CaptureView,
    path: Seq<char>,
    dir: Option<Seq<char>>,
    name: Option<Seq<char>>,
    ending: Seq<char>,
    unix_secs: u64,
) -> bool {
    forall|d: Seq<char>, n: Seq<char>|
        {
            &&& dir is Some ==> d == dir->0
            &&& dir is None ==> d == v.default_dir
            &&& name is Some ==> n == name->0
            &&& name is None ==> n == v.example + "_"@ + text::decimal(unix_secs as nat)
        } ==> #[trigger] is_path_in(path, d, n + ending)
}

/// Does a plan do what it was asked for? It has the rate that was asked for, the format's own
/// only where none was; frames are spaced by that rate; it records the stages that were asked
/// for, one where the format holds one; and it writes to the file that was asked for, with
/// the scale and the palette that were.
pub open spec fn plan_meets(
    plan: PlanView,
    v: CaptureView,
    p: ParamsView,
    unix_secs: u64,
) -> bool {
    let s = plan.sequence;
    &&& plan.format == p.format
    &&& plan.palette == p.palette
    &&& p.fps is Some ==> plan.fps == p.fps
    &&& p.fps is None && p.format == CaptureFormat::Png ==> plan.fps is None
    &&& p.fps is None && p.format != CaptureFormat::Png ==> plan.fps == Some(30u16)
    &&& plan.fps is Some <==> s.fps_interval is Some
    &&& plan.fps is Some ==> spaces_frames(s.fps_interval->0 as int, plan.fps->0 as int)
    &&& s.frame_count == 0
    &&& s.last_capture_time is None
    &&& p.stage != CaptureStage::Both || p.format == CaptureFormat::Png ==> s.stage == p.stage
    &&& p.stage == CaptureStage::Both && p.format != CaptureFormat::Png ==> s.stage
        == CaptureStage::Post
    &&& match p.format {
        CaptureFormat::Png => s.writer is Png && is_named(
            v,
            s.writer->dir,
            p.dir,
            p.name,
            Seq::empty(),
            unix_secs,
        ),
        CaptureFormat::Gif => {
            let g = s.writer->gif;
            &&& s.writer is Gif
            &&& is_named(v, g.path, p.dir, p.name, ".gif"@, unix_secs)
            &&& delays_frames(g.default_delay_cs as int, plan.fps->0 as int)
            &&& g.scale == p.scale
            &&& g.palette_mode == p.palette
            &&& p.palette == PaletteMode::Local ==> g.warming is None
            &&& p.palette == PaletteMode::Global ==> g.warming is Some && (g.warming->0).0.len() == 0
                && (g.warming->0).1 > 0
            &&& g.palette is None
            &&& g.dropped == 0
        },
        CaptureFormat::Apng => {
            &&& s.writer is Apng
            &&& s.writer->scale == p.scale
            &&& is_named(v, s.writer->path, p.dir, p.name, ".apng"@, unix_secs)
        },
    }
}

proof fn plans_meet(v: CaptureView, p: ParamsView, unix_secs: u64)
    ensures
        plan_meets(v.plan(p, unix_secs), v, p, unix_secs),
{
    assert forall|f: u16| true implies spaces_frames(
        #[trigger] pixels::interval_of_fps(f as nat) as int,
        f as int,
    ) && pixels::interval_of_fps(f as nat) <= u64::MAX by {
        interval_spaces_frames(f);
    }
    assert forall|f: u16| true implies delays_frames(
        #[trigger] pixels::delay_of_fps(f as nat) as int,
        f as int,
    ) && pixels::delay_of_fps(f as nat) <= u16::MAX by {
        delay_delays_frames(f);
    }
    assert forall|d: Seq<char>, n: Seq<char>| true implies is_path_in(
        #[trigger] session::joined_path(d, n),
        d,
        n,
    ) by {
        joined_is_path_in(d, n);
    }
    assert(forall|n: Seq<char>| #[trigger] (n + Seq::<char>::empty()) =~= n);
}

/// A planned sequence is the one that was asked for, whatever the format.
pub proof fn plans_do_what_was_asked()
    ensures
        forall|c: &Capture, params: SequenceParams, unix_secs: u64, r: SequencePlan| #[trigger]
            call_ensures(Capture::plan_sequence, (c, params, unix_secs), r) ==> plan_meets(
                r@,
                c@,
                params@,
                unix_secs,
            ),
{
    assert forall|c: &Capture, params: SequenceParams, unix_secs: u64, r: SequencePlan| #[trigger]
        call_ensures(Capture::plan_sequence, (c, params, unix_secs), r) implies plan_meets(
        r@,
        c@,
        params@,
        unix_secs,
    ) by {
        plans_meet(c@, params@, unix_secs);
    }
}

/// A planned sequence has the rate that was asked for: if the parameters give a rate, then
/// for every format the plan has it, and its interval is the one of that rate; only without
/// one does the format's default apply.
pub proof fn asked_rates_are_kept()
    ensures
        forall|
            c: &Capture,
            params: SequenceParams,
            unix_secs: u64,
            r: SequencePlan,
            f: u16,
            interval: u64,
        |
            #![trigger call_ensures(Capture::plan_sequence, (c, params, unix_secs), r),
                call_ensures(pixels::fps_to_interval, (f,), interval)]
            call_ensures(Capture::plan_sequence, (c, params, unix_secs), r) && call_ensures(
                pixels::fps_to_interval,
                (f,),
                interval,
            ) && params.fps == Some(f) ==> r.fps == Some(f) && r.sequence.fps_interval == Some(
                interval,
            ),
{
    assert forall|f: u16| true implies #[trigger] pixels::interval_of_fps(f as nat)
        <= u64::MAX by {
        interval_spaces_frames(f);
    }
}

// ---------------------------------------------------------------------------
// Requests
// ---------------------------------------------------------------------------

/// What a request leads to. A snapshot waits for the stages that were asked for, and no
/// others, under the names that were asked for; a start comes with a plan for what was asked
/// for unless a sequence runs; a stop ends the sequence, or the snapshot where none runs, and
/// hands over what its encoder has not seen yet; a toggle does the one or the other.
pub open spec fn request_meets(
    v: CaptureView,
    request: RequestView,
    unix_secs: u64,
    w: CaptureView,
    step: StepView,
) -> bool {
    &&& w.default_dir == v.default_dir && w.example == v.example
    &&& request matches RequestView::OneShot { stage, dir, name } ==> {
        &&& w.sequence == v.sequence
        &&& w.one_shot is Some
        &&& w.one_shot->0.path_pre is Some <==> stage != CaptureStage::Post
        &&& w.one_shot->0.path_post is Some <==> stage != CaptureStage::Pre
        &&& w.one_shot->0.path_pre is Some ==> is_named(
            v,
            w.one_shot->0.path_pre->0,
            dir,
            name,
            "_pre.png"@,
            unix_secs,
        )
        &&& w.one_shot->0.path_post is Some ==> is_named(
            v,
            w.one_shot->0.path_post->0,
            dir,
            name,
            "_post.png"@,
            unix_secs,
        )
        &&& step is Log
    }
    &&& request matches RequestView::StartSequence { params } ==> start_meets(
        v,
        params,
        unix_secs,
        w,
        step,
    )
    &&& request is Stop ==> stop_meets(v, w, step)
    &&& request matches RequestView::Toggle { params } ==> if v.sequence is Some {
        stop_meets(v, w, step)
    } else {
        start_meets(v, params, unix_secs, w, step)
    }
}

/// Is this what a start leads to?
pub open spec fn start_meets(
    v: CaptureView,
    params: ParamsView,
    unix_secs: u64,
    w: CaptureView,
    step: StepView,
) -> bool {
    &&& w == v
    &&& step is Start <==> v.sequence is None
    &&& step is Start ==> plan_meets(step->plan, v, params, unix_secs)
    &&& !(step is Start) ==> step is Log
}

/// Is this what a stop leads to?
pub open spec fn stop_meets(v: CaptureView, w: CaptureView, step: StepView) -> bool {
    &&& w.sequence is None
    &&& v.sequence is Some ==> w.one_shot == v.one_shot
    &&& v.sequence is None ==> w.one_shot is None && step is Log
    &&& v.sequence is Some ==> match v.sequence->0.writer {
        WriterView::Png { dir } => step is Log,
        WriterView::Gif { gif } => {
            &&& step is StopGif
            &&& step->StopGif_path == gif.path
            &&& step->frame_count == v.sequence->0.frame_count
            &&& step->dropped == gif.dropped
            &&& gif.warming is None ==> step->flush.len() == 0
            &&& gif.warming is Some ==> step->flush.len() == (gif.warming->0).0.len()
            &&& forall|i: int|
                gif.warming is Some && 0 <= i < step->flush.len() ==> sends(
                    #[trigger] step->flush[i],
                    gif,
                    (gif.warming->0).0[i],
                ) && step->flush[i].palette is Some
        },
        WriterView::Apng { path, scale } => step is StopApng && step->StopApng_path == path,
    }
}

/// Does this send the frame as it was captured, with the stream's delay and scale?
pub open spec fn sends(sent: GifFrameView, gif: GifView, f: FrameView) -> bool {
    sent.frame == f && sent.default_delay_cs == gif.default_delay_cs && sent.scale == gif.scale
}

/// Every request does what it asks for.
pub proof fn requests_do_what_they_ask()
    ensures
        forall|c: &mut Capture, request: CaptureRequest, unix_secs: u64, r: Step| #[trigger]
            call_ensures(Capture::apply_request, (c, request, unix_secs), r) ==> request_meets(
                (*c)@,
                request@,
                unix_secs,
                (*final(c))@,
                r@,
            ),
        forall|c: &mut Capture, r: Step| #[trigger]
            call_ensures(Capture::stop, (c,), r) ==> stop_meets((*c)@, (*final(c))@, r@),
{
    assert forall|c: &mut Capture, request: CaptureRequest, unix_secs: u64, r: Step| #[trigger]
        call_ensures(Capture::apply_request, (c, request, unix_secs), r) implies request_meets(
        (*c)@,
        request@,
        unix_secs,
        (*final(c))@,
        r@,
    ) by {
        let v = (*c)@;
        assert forall|p: ParamsView| true implies plan_meets(
            #[trigger] v.plan(p, unix_secs),
            v,
            p,
            unix_secs,
        ) by {
            plans_meet(v, p, unix_secs);
        }
        assert forall|d: Seq<char>, n: Seq<char>| true implies is_path_in(
            #[trigger] session::joined_path(d, n),
            d,
            n,
        ) by {
            joined_is_path_in(d, n);
        }
    }
}

/// A started sequence is the planned one, and only one runs at a time.
pub proof fn started_sequences_are_the_planned_ones()
    ensures
        forall|c: &mut Capture, plan: SequencePlan, r: Result<String, CaptureError>| #[trigger]
            call_ensures(Capture::start_sequence, (c, plan), r) ==> {
                &&& r is Ok <==> (*c)@.sequence is None
                &&& (*final(c))@.one_shot == (*c)@.one_shot
                &&& (*final(c))@.default_dir == (*c)@.default_dir
                &&& (*final(c))@.example == (*c)@.example
                &&& (*final(c))@.sequence == (if r is Ok {
                    Some(plan@.sequence)
                } else {
                    (*c)@.sequence
                })
            },
{
}

// ---------------------------------------------------------------------------
// Frames
// ---------------------------------------------------------------------------

/// Does a frame's action hand the frame on, as it was captured, to where the sequence writes?
/// A PNG sequence names its files by stage and number; an APNG recording takes each frame with
/// its scale; a GIF stream sends each frame at once where it has its palette or needs none,
/// and else keeps it, and with the frame that completes its training sends all that it kept.
pub open spec fn action_meets(
    before: SequenceView,
    is_pre: bool,
    f: FrameView,
    action: ActionView,
    after: WriterView,
) -> bool {
    match before.writer {
        WriterView::Png { dir } => {
            let stage = if is_pre {
                "pre_"@
            } else {
                "post_"@
            };
            &&& after == before.writer
            &&& action is WritePng
            &&& action->WritePng_frame == f
            &&& is_path_in(
                action->path,
                dir,
                stage + text::zero_filled(before.frame_count as nat, 6) + ".png"@,
            )
        },
        WriterView::Apng { path, scale } => {
            &&& after == before.writer
            &&& action is SendApng
            &&& action->SendApng_frame == f
            &&& action->scale == scale
        },
        WriterView::Gif { gif } => {
            &&& action is SendGif
            &&& after is Gif
            &&& stream_meets(gif, f, after->gif, action->frames)
        },
    }
}

/// Does a GIF stream send a frame at once, as it was captured, where it has its palette or needs
/// none, and else keep it, and with the frame that completes its training send all that it kept?
pub open spec fn stream_meets(
    gif: GifView,
    f: FrameView,
    after: GifView,
    sent: Seq<GifFrameView>,
) -> bool {
    &&& after.path == gif.path
    &&& after.dropped == gif.dropped
    &&& after.scale == gif.scale
    &&& after.default_delay_cs == gif.default_delay_cs
    &&& after.palette_mode == gif.palette_mode
    &&& gif.palette_mode == PaletteMode::Local ==> sent.len() == 1 && sends(sent[0], gif, f)
        && sent[0].palette is None && after == gif
    &&& gif.palette_mode == PaletteMode::Global && gif.warming is None && gif.palette is Some
        ==> sent.len() == 1 && sends(sent[0], gif, f) && sent[0].palette == gif.palette && after
        == gif
    &&& gif.palette_mode == PaletteMode::Global && gif.warming is Some ==> {
        let kept = (gif.warming->0).0;
        let target = (gif.warming->0).1;
        &&& kept.len() + 1 < target ==> sent.len() == 0 && after.warming == Some(
            (kept.push(f), target),
        ) && after.palette == gif.palette
        &&& kept.len() + 1 >= target ==> {
            &&& after.warming is None
            &&& after.palette is Some
            &&& sent.len() == kept.len() + 1
            &&& forall|i: int|
                0 <= i < sent.len() ==> (#[trigger] sent[i]).palette == after.palette && sends(
                    sent[i],
                    gif,
                    kept.push(f)[i],
                )
        }
    }
}

proof fn stream_is_met(gif: GifView, f: FrameView)
    ensures
        stream_meets(gif, f, gif.fed(f).0, gif.fed(f).1),
{
    if gif.palette_mode == PaletteMode::Global && gif.warming is Some {
        let full = (gif.warming->0).0.push(f);
        if full.len() >= (gif.warming->0).1 {
            let p = Some(session::training(full));
            assert forall|i: int| 0 <= i < full.len() implies #[trigger] gif.all_dressed(full, p)[i]
                == gif.dressed(full[i], p) by {}
        }
    }
}

/// A stream that is fed sends or keeps each frame, and one that is flushed sends what it kept.
pub proof fn streams_send_or_keep_every_frame()
    ensures
        forall|g: &mut GifWriter, frame: WarmupFrame, r: Vec<GifFrame>| #[trigger]
            call_ensures(GifWriter::feed, (g, frame), r) ==> stream_meets(
                (*g)@,
                frame@,
                (*final(g))@,
                session::gif_views(r@),
            ),
        forall|g: GifWriter, r: Vec<GifFrame>| #[trigger]
            call_ensures(GifWriter::flush, (g,), r) ==> {
                let sent = session::gif_views(r@);
                &&& g@.warming is None ==> sent.len() == 0
                &&& g@.warming is Some ==> sent.len() == (g@.warming->0).0.len()
                &&& forall|i: int|
                    g@.warming is Some && 0 <= i < sent.len() ==> sends(
                        #[trigger] sent[i],
                        g@,
                        (g@.warming->0).0[i],
                    ) && sent[i].palette is Some
            },
{
    assert forall|g: &mut GifWriter, frame: WarmupFrame, r: Vec<GifFrame>| #[trigger]
        call_ensures(GifWriter::feed, (g, frame), r) implies stream_meets(
        (*g)@,
        frame@,
        (*final(g))@,
        session::gif_views(r@),
    ) by {
        stream_is_met((*g)@, frame@);
    }
}

/// A palette is trained on every frame that it is given: one more frame adds its samples behind
/// those of the others.
pub proof fn palettes_are_trained_on_every_frame(buffer: Seq<WarmupFrame>, more: WarmupFrame)
    ensures
        forall|few: &Vec<WarmupFrame>, a: GlobalPalette, all: &Vec<WarmupFrame>, b: GlobalPalette|
            #![trigger call_ensures(train_global_palette, (few,), a), call_ensures(
                train_global_palette,
                (all,),
                b,
            )]
            call_ensures(train_global_palette, (few,), a) && call_ensures(
                train_global_palette,
                (all,),
                b,
            ) && few@ == buffer && all@ == buffer.push(more) ==> b.trained_on() == a.trained_on()
                + pixels::samples_of(more.rgba@),
        forall|none: &Vec<WarmupFrame>, r: GlobalPalette| #[trigger]
            call_ensures(train_global_palette, (none,), r) && none@.len() == 0
                ==> r.trained_on().len() == 0,
{
    assert(buffer.push(more).drop_last() =~= buffer);
}

/// A frame against a palette has one index a pixel, and pixels of one color have one index.
pub proof fn equal_pixels_get_equal_indices()
    ensures
        forall|p: &GlobalPalette, rgba: &Vec<u8>, r: Vec<u8>| #[trigger]
            call_ensures(index_pixels, (p, rgba), r) ==> {
                &&& r@.len() == rgba@.len() / 4
                &&& forall|i: int, j: int|
                    0 <= i < r@.len() && 0 <= j < r@.len() && rgba@.subrange(4 * i, 4 * i + 4)
                        == rgba@.subrange(4 * j, 4 * j + 4) ==> #[trigger] r@[i] == #[trigger] r@[j]
                &&& forall|i: int|
                    0 <= i < r@.len() ==> #[trigger] r@[i] == p.entry(
                        rgba@.subrange(4 * i, 4 * i + 4),
                    ) as u8
            },
{
}

// ---------------------------------------------------------------------------
// Names and messages
// ---------------------------------------------------------------------------

/// Paths, names and messages are made of what they are about: a path of its directory and name,
/// a name of the example and the time, and a message of the numbers and the place that it
/// tells of.
pub proof fn messages_tell_what_happened()
    ensures
        forall|dir: &str, name: &str, r: String| #[trigger]
            call_ensures(session::join_path, (dir, name), r) ==> is_path_in(r@, dir@, name@),
        forall|example: &str, secs: u64, r: String| #[trigger]
            call_ensures(session::default_name, (example, secs), r) ==> r@ == example@ + "_"@
                + text::decimal(secs as nat),
        forall|frames: u32, dropped: u32, path: &str, r: String| #[trigger]
            call_ensures(session::gif_stopped_line, (frames, dropped, path), r) ==> {
                &&& dropped == 0 ==> r@ == "capture: GIF stream stopped, "@ + text::decimal(
                    frames as nat,
                ) + " frame(s)"@ + ""@ + " encoding in background -> "@ + path@
                &&& dropped > 0 ==> r@ == "capture: GIF stream stopped, "@ + text::decimal(
                    frames as nat,
                ) + " frame(s)"@ + (", "@ + text::decimal(dropped as nat)
                    + " dropped under backpressure"@) + " encoding in background -> "@ + path@
            },
        forall|buffered: u32, path: &str, r: String| #[trigger]
            call_ensures(session::apng_stopped_line, (buffered, path), r) ==> r@
                == "capture: APNG stream stopped, "@ + text::decimal(buffered as nat)
                + " frame(s) buffered; assembling and writing in background -> "@ + path@,
        forall|error: &str, r: String| #[trigger]
            call_ensures(session::start_failed_line, (error,), r) ==> r@
                == "capture: failed to start sequence: "@ + error@,
        forall|c: &mut Capture, plan: SequencePlan, r: Result<String, CaptureError>| #[trigger]
            call_ensures(Capture::start_sequence, (c, plan), r) && r is Err
                ==> r->Err_0.message@ == "a sequence is already running"@,
{
    assert forall|dir: &str, name: &str, r: String| #[trigger]
        call_ensures(session::join_path, (dir, name), r) implies is_path_in(r@, dir@, name@) by {
        joined_is_path_in(dir@, name@);
    }
}

/// The status tells how far a capture is: the frames that were taken, and those that were
/// dropped where there are any; how many of the frames for its palette a stream has; or that a
/// snapshot waits.
pub proof fn status_tells_how_far()
    ensures
        forall|c: &Capture, r: Option<String>| #[trigger]
            call_ensures(Capture::status, (c,), r) ==> {
                let s = c@.sequence->0;
                let g = s.writer->gif;
                &&& c@.sequence is Some && s.writer is Gif && g.warming is Some ==> r is Some
                    && r->0@ == "WARMING "@ + text::decimal((g.warming->0).0.len()) + "/"@
                    + text::decimal((g.warming->0).1 as nat)
                &&& c@.sequence is Some && !(s.writer is Gif) ==> r is Some && r->0@ == "REC "@
                    + text::decimal(s.frame_count as nat)
                &&& c@.sequence is Some && s.writer is Gif && g.warming is None && g.dropped == 0
                    ==> r is Some && r->0@ == "REC "@ + text::decimal(s.frame_count as nat)
                &&& c@.sequence is Some && s.writer is Gif && g.warming is None && g.dropped > 0
                    ==> r is Some && r->0@ == "REC "@ + text::decimal(s.frame_count as nat) + " ("@
                    + text::decimal(g.dropped as nat) + " dropped)"@
                &&& c@.sequence is None && c@.one_shot is Some ==> r is Some && r->0@ == "snap"@
                &&& c@.sequence is None && c@.one_shot is None ==> r is None
            },
{
}

/// Every frame that is handed to a session goes where it is wanted. A snapshot writes it if it
/// waits for that stage, under its name, and waits for it no longer; a running sequence takes
/// it, unless a snapshot alone called for it.
pub open spec fn consumption_meets(
    v: CaptureView,
    is_pre: bool,
    f: FrameView,
    w: CaptureView,
    actions: Seq<ActionView>,
) -> bool {
    let shot = v.one_shot->0;
    let snapped = v.one_shot is Some && (if is_pre {
        shot.path_pre is Some
    } else {
        shot.path_post is Some
    });
    let recorded = v.sequence is Some && (v.one_shot is Some ==> (if is_pre {
        v.sequence->0.stage != CaptureStage::Post
    } else {
        v.sequence->0.stage != CaptureStage::Pre
    }) && v.sequence->0.is_due(f.captured_at));
    let first: int = if snapped {
        1
    } else {
        0
    };
    &&& w.default_dir == v.default_dir && w.example == v.example
    &&& v.one_shot is Some <==> w.one_shot is Some
    &&& v.one_shot is Some && is_pre ==> w.one_shot->0.path_pre is None
        && w.one_shot->0.path_post == shot.path_post
    &&& v.one_shot is Some && !is_pre ==> w.one_shot->0.path_post is None
        && w.one_shot->0.path_pre == shot.path_pre
    &&& snapped ==> actions.len() > 0 && actions[0] == (ActionView::WritePng {
        path: if is_pre {
            shot.path_pre->0
        } else {
            shot.path_post->0
        },
        frame: f,
    })
    &&& actions.len() == first + (if recorded {
        1int
    } else {
        0int
    })
    &&& !recorded ==> w.sequence == v.sequence
    &&& recorded ==> {
        &&& w.sequence is Some
        &&& w.sequence->0.stage == v.sequence->0.stage
        &&& w.sequence->0.frame_count == v.sequence->0.frame_count
        &&& w.sequence->0.fps_interval == v.sequence->0.fps_interval
        &&& w.sequence->0.last_capture_time == v.sequence->0.last_capture_time
        &&& action_meets(v.sequence->0, is_pre, f, actions[first], w.sequence->0.writer)
    }
}

/// Frames go where they are wanted.
pub proof fn frames_go_where_they_are_wanted()
    ensures
        forall|c: &mut Capture, is_pre: bool, frame: WarmupFrame, r: Vec<FrameAction>| #[trigger]
            call_ensures(Capture::consume_frame, (c, is_pre, frame), r) ==> consumption_meets(
                (*c)@,
                is_pre,
                frame@,
                (*final(c))@,
                session::action_views(r@),
            ),
{
    assert forall|c: &mut Capture, is_pre: bool, frame: WarmupFrame, r: Vec<FrameAction>| #[trigger]
        call_ensures(Capture::consume_frame, (c, is_pre, frame), r) implies consumption_meets(
        (*c)@,
        is_pre,
        frame@,
        (*final(c))@,
        session::action_views(r@),
    ) by {
        consumption_is_met((*c)@, is_pre, frame@);
    }
}

proof fn consumption_is_met(v: CaptureView, is_pre: bool, f: FrameView)
    ensures
        consumption_meets(v, is_pre, f, v.consumed(is_pre, f).0, v.consumed(is_pre, f).1),
{
    if v.takes(is_pre, f.captured_at) {
        let s = v.sequence->0;
        let r = s.writer.written(is_pre, s.frame_count, f);
        match s.writer {
            WriterView::Png { dir } => {
                reveal_strlit("pre");
                reveal_strlit("post");
                reveal_strlit("_");
                reveal_strlit("pre_");
                reveal_strlit("post_");
                assert("pre"@ + "_"@ =~= "pre_"@);
                assert("post"@ + "_"@ =~= "post_"@);
                joined_is_path_in(
                    dir,
                    session::tap_name(is_pre) + "_"@ + text::zero_filled(s.frame_count as nat, 6)
                        + ".png"@,
                );
            },
            WriterView::Gif { gif } => {
                stream_is_met(gif, f);
            },
            WriterView::Apng { path, scale } => {},
        }
        assert(action_meets(s, is_pre, f, r.1, r.0));
    }
}

/// A sequence captures at its rate. Directly behind a frame that it counted, the next is due
/// once its interval has passed, and not before; one without an interval takes every frame;
/// one that has taken none is due at once; and without a sequence or a snapshot nothing is.
pub proof fn sequences_capture_at_their_rate()
    ensures
        forall|c: &mut Capture, at: u64, u: (), d: &Capture, now: u64, r: bool|
            #![trigger call_ensures(Capture::advance_frame, (c, at), u), call_ensures(
                Capture::should_capture,
                (d, now),
                r,
            )]
            call_ensures(Capture::advance_frame, (c, at), u) && call_ensures(
                Capture::should_capture,
                (d, now),
                r,
            ) && d@ == (*final(c))@ && (*c)@.one_shot is None && (*c)@.sequence is Some && at <= now
                ==> (r <==> match (*c)@.sequence->0.fps_interval {
                Some(interval) => now - at >= interval,
                None => true,
            }),
        forall|d: &Capture, now: u64, r: bool| #[trigger]
            call_ensures(Capture::should_capture, (d, now), r) ==> {
                &&& d@.one_shot is Some ==> r
                &&& d@.one_shot is None && d@.sequence is None ==> !r
                &&& d@.sequence is Some && d@.sequence->0.last_capture_time is None ==> r
                &&& d@.sequence is Some && d@.sequence->0.fps_interval is None ==> r
            },
{
}

/// A frame that a sequence took is counted, once, whatever its stages, and its time noted; a
/// snapshot is over with the frame that brought the last stage it waited for, and not before.
pub proof fn frames_are_counted()
    ensures
        forall|c: &mut Capture, now: u64, u: ()| #[trigger]
            call_ensures(Capture::advance_frame, (c, now), u) ==> {
                let v = (*c)@;
                let w = (*final(c))@;
                &&& w.default_dir == v.default_dir && w.example == v.example
                &&& v.one_shot is None ==> w.one_shot is None
                &&& v.one_shot is Some && v.one_shot->0.path_pre is None
                    && v.one_shot->0.path_post is None ==> w.one_shot is None
                &&& v.one_shot is Some && (v.one_shot->0.path_pre is Some
                    || v.one_shot->0.path_post is Some) ==> w.one_shot == v.one_shot
                &&& v.sequence is None ==> w.sequence is None
                &&& v.sequence is Some && v.one_shot is Some && !v.sequence->0.is_due(now)
                    ==> w.sequence == v.sequence
                &&& v.sequence is Some && (v.one_shot is None || v.sequence->0.is_due(now)) ==> {
                    let s = v.sequence->0;
                    let t = w.sequence->0;
                    &&& w.sequence is Some
                    &&& t.last_capture_time == Some(now)
                    &&& s.frame_count < u32::MAX ==> t.frame_count == s.frame_count + 1
                    &&& t.stage == s.stage && t.writer == s.writer && t.fps_interval
                        == s.fps_interval
                }
            },
{
}

/// A tap is read back exactly where someone waits for it.
pub proof fn taps_are_wanted_where_used()
    ensures
        forall|c: &Capture, r: bool| #[trigger]
            call_ensures(Capture::wants_pre, (c,), r) ==> (r <==> (c@.one_shot is Some
                && c@.one_shot->0.path_pre is Some) || (c@.sequence is Some && c@.sequence->0.stage
                != CaptureStage::Post)),
        forall|c: &Capture, r: bool| #[trigger]
            call_ensures(Capture::wants_post, (c,), r) ==> (r <==> (c@.one_shot is Some
                && c@.one_shot->0.path_post is Some) || (c@.sequence is Some && c@.sequence->0.stage
                != CaptureStage::Pre)),
{
}

/// A status shows exactly while something is being captured.
pub proof fn status_shows_while_capturing()
    ensures
        forall|c: &Capture, r: Option<String>| #[trigger]
            call_ensures(Capture::status, (c,), r) ==> (r is Some <==> c@.sequence is Some
                || c@.one_shot is Some),
{
}

/// Frames that a GIF encoder could not take are counted, and nothing else changes; what is
/// told of them is their number.
pub proof fn dropped_frames_are_counted()
    ensures
        forall|c: &mut Capture, r: Option<u32>| #[trigger]
            call_ensures(Capture::note_dropped, (c,), r) ==> {
                let v = (*c)@;
                let w = (*final(c))@;
                let streams = v.sequence is Some && v.sequence->0.writer is Gif;
                &&& !streams ==> w == v && r is None
                &&& streams ==> {
                    let g = v.sequence->0.writer->gif;
                    let h = w.sequence->0.writer->gif;
                    &&& w.sequence is Some && w.sequence->0.writer is Gif
                    &&& g.dropped < u32::MAX ==> h.dropped == g.dropped + 1
                    &&& h.warming == g.warming && h.palette == g.palette && h.path == g.path
                        && h.scale == g.scale && h.default_delay_cs == g.default_delay_cs
                    &&& w.sequence->0.frame_count == v.sequence->0.frame_count
                    &&& w.one_shot == v.one_shot
                    &&& r is Some ==> r == Some(h.dropped)
                    &&& g.dropped == 0 ==> r is Some
                }
            },
{
    reveal_with_fuel(session::is_power_of_two, 2);
}

/// What is logged of a request tells what it did.
pub proof fn steps_tell_what_happened()
    ensures
        forall|c: &mut Capture, request: CaptureRequest, unix_secs: u64, r: Step| #[trigger]
            call_ensures(Capture::apply_request, (c, request, unix_secs), r) ==> {
                let v = (*c)@;
                let line = r@->line;
                &&& request@ is OneShot ==> line == "capture: one-shot queued ("@
                    + request@->stage.spec_label() + ")"@
                &&& request@ is StartSequence && v.sequence is Some ==> line
                    == "capture: failed to start sequence: "@ + "a sequence is already running"@
                &&& request@ is Stop && v.sequence is None && v.one_shot is Some ==> line
                    == "capture: pending one-shot cancelled"@
                &&& request@ is Stop && v.sequence is None && v.one_shot is None ==> line
                    == "capture: stop with no active session (no-op)"@
                &&& request@ is Stop && v.sequence is Some && v.sequence->0.writer is Png ==> line
                    == "capture: PNG sequence stopped, "@ + text::decimal(
                    v.sequence->0.frame_count as nat,
                ) + " frame(s) at "@ + v.sequence->0.writer->dir
            },
        forall|c: &mut Capture, plan: SequencePlan, r: Result<String, CaptureError>| #[trigger]
            call_ensures(Capture::start_sequence, (c, plan), r) && r is Ok ==> {
                let rate = if plan.fps is Some {
                    text::decimal(plan.fps->0 as nat)
                } else {
                    "unlimited"@
                };
                r->Ok_0@ == "capture: sequence started ("@ + plan.format.spec_label() + ", "@
                    + plan.sequence.stage.spec_label() + ", fps="@ + rate + ", palette="@
                    + plan.palette.spec_label() + ")"@
            },
{
}

} // verus!
