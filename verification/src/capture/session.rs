//! The capture session: what is being recorded, and what to do with each frame.
//!
//! The session decides; writing files and feeding encoder threads is left to the runner,
//! which performs the [`Step`]s and [`FrameAction`]s that it is handed.

use std::sync::Arc;

use vstd::prelude::*;

use crate::capture;
use crate::capture::encode::{ApngFrame, GifFrame};
use crate::capture::palette;
use crate::capture::palette::{share, train_global_palette, GlobalPalette, WarmupFrame};
use crate::capture::pixels;
use crate::capture::pixels::{fps_to_centiseconds, fps_to_interval, CaptureError};
use crate::capture::{
    CaptureFormat, CaptureRequest, CaptureStage, PaletteMode, ParamsView, RequestView,
    SequenceParams,
};
use crate::text;
use crate::text::{number, number_filled, starts_with};

verus! {

/// Number of captures buffered before a global palette is trained.
pub const GIF_WARMUP_FRAMES: u32 = 30;

// ---------------------------------------------------------------------------
// Names and paths
// ---------------------------------------------------------------------------

/// A path below a directory, with `/` between its parts: a `name` that starts with `/` is
/// absolute and stands for itself.
pub open spec fn joined_path(dir: Seq<char>, name: Seq<char>) -> Seq<char> {
    if dir.len() == 0 || text::has_prefix(name, "/"@) {
        name
    } else if dir.last() == '/' {
        dir + name
    } else {
        dir + "/"@ + name
    }
}

pub fn join_path(dir: &str, name: &str) -> (r: String)
    ensures
        r@ == joined_path(dir@, name@),
{
    let n: usize = dir.unicode_len();
    if n == 0 || starts_with(name, "/") {
        return name.to_owned();
    }
    let mut s = dir.to_owned();
    if dir.get_char(n - 1) != '/' {
        s.append("/");
    }
    s.append(name);
    s
}

/// The name of a capture that was given none: `{example}_{unix_secs}`.
pub open spec fn generated_name(example: Seq<char>, unix_secs: u64) -> Seq<char> {
    example + "_"@ + text::decimal(unix_secs as nat)
}

pub fn default_name(example: &str, unix_secs: u64) -> (r: String)
    ensures
        r@ == generated_name(example@, unix_secs),
{
    let mut s = example.to_owned();
    s.append("_");
    s.append(number(unix_secs).as_str());
    s
}

// ---------------------------------------------------------------------------
// Writers
// ---------------------------------------------------------------------------

/// The first captures of a GIF with a global palette, kept so that the palette is trained
/// on what the recording shows rather than on the screen at the moment it was started.
pub struct WarmingState {
    pub buffer: Vec<WarmupFrame>,
    pub target_frames: u32,
}

/// A GIF stream.
pub struct GifWriter {
    pub path: String,
    /// Delay of the first frame, in hundredths of a second.
    pub default_delay_cs: u16,
    pub scale: Option<u32>,
    pub palette_mode: PaletteMode,
    /// The warmup buffer, until the palette has been trained.
    pub warming: Option<WarmingState>,
    /// The trained palette.
    pub global_palette: Option<Arc<GlobalPalette>>,
    /// Frames that the encoder's queue had no room for.
    pub dropped: u32,
}

/// Per-format incremental writer.
pub enum SequenceWriter {
    /// One independent file per frame, named by stage.
    Png { dir: String },
    /// Animated GIF, encoded in the background.
    Gif { gif: GifWriter },
    /// Animated PNG; frames are buffered in the background until the recording stops.
    Apng { path: String, scale: Option<u32> },
}

/// A captured frame over plain values.
#[verifier::ext_equal]
pub struct FrameView {
    pub rgba: Seq<u8>,
    pub width: u32,
    pub height: u32,
    pub captured_at: u64,
}

impl View for WarmupFrame {
    type V = FrameView;

    open spec fn view(&self) -> FrameView {
        FrameView {
            rgba: self.rgba@,
            width: self.width,
            height: self.height,
            captured_at: self.captured_at,
        }
    }
}

/// Frames over plain values.
pub open spec fn frame_views(s: Seq<WarmupFrame>) -> Seq<FrameView> {
    s.map_values(|f: WarmupFrame| f@)
}

/// The pixels that a palette was trained on.
pub open spec fn palette_view(p: Option<Arc<GlobalPalette>>) -> Option<Seq<u8>> {
    match p {
        Some(g) => Some(g.trained_on()),
        None => None,
    }
}

/// A frame on its way to the GIF encoder, over plain values; `palette` is what its palette
/// was trained on.
#[verifier::ext_equal]
pub struct GifFrameView {
    pub frame: FrameView,
    pub default_delay_cs: u16,
    pub scale: Option<u32>,
    pub palette: Option<Seq<u8>>,
}

impl View for GifFrame {
    type V = GifFrameView;

    open spec fn view(&self) -> GifFrameView {
        GifFrameView {
            frame: FrameView {
                rgba: self.rgba@,
                width: self.src_width,
                height: self.src_height,
                captured_at: self.captured_at,
            },
            default_delay_cs: self.default_delay_cs,
            scale: self.scale,
            palette: palette_view(self.global_palette),
        }
    }
}

/// Frames on their way to the GIF encoder over plain values.
pub open spec fn gif_views(s: Seq<GifFrame>) -> Seq<GifFrameView> {
    s.map_values(|f: GifFrame| f@)
}

/// A GIF stream over plain values.
#[verifier::ext_equal]
pub struct GifView {
    pub path: Seq<char>,
    pub default_delay_cs: u16,
    pub scale: Option<u32>,
    pub palette_mode: PaletteMode,
    pub warming: Option<(Seq<FrameView>, u32)>,
    pub palette: Option<Seq<u8>>,
    pub dropped: u32,
}

impl View for GifWriter {
    type V = GifView;

    open spec fn view(&self) -> GifView {
        GifView {
            path: self.path@,
            default_delay_cs: self.default_delay_cs,
            scale: self.scale,
            palette_mode: self.palette_mode,
            warming: match self.warming {
                Some(w) => Some((frame_views(w.buffer@), w.target_frames)),
                None => None,
            },
            palette: palette_view(self.global_palette),
            dropped: self.dropped,
        }
    }
}

/// The training pixels of buffered frames.
pub open spec fn training(frames: Seq<FrameView>) -> Seq<u8>
    decreases frames.len(),
{
    if frames.len() == 0 {
        Seq::empty()
    } else {
        training(frames.drop_last()) + pixels::samples_of(frames.last().rgba)
    }
}

proof fn training_is_samples(buffer: Seq<WarmupFrame>)
    ensures
        palette::training_samples(buffer) == training(frame_views(buffer)),
    decreases buffer.len(),
{
    if buffer.len() > 0 {
        training_is_samples(buffer.drop_last());
        assert(frame_views(buffer).drop_last() =~= frame_views(buffer.drop_last()));
    }
}

impl GifView {
    /// A frame dressed for the encoder.
    pub open spec fn dressed(self, f: FrameView, palette: Option<Seq<u8>>) -> GifFrameView {
        GifFrameView {
            frame: f,
            default_delay_cs: self.default_delay_cs,
            scale: self.scale,
            palette,
        }
    }

    /// Frames dressed for the encoder.
    pub open spec fn all_dressed(self, s: Seq<FrameView>, palette: Option<Seq<u8>>) -> Seq<
        GifFrameView,
    > {
        s.map_values(|f: FrameView| self.dressed(f, palette))
    }

    /// What one more frame leads to: the stream after it and the frames that go out.
    ///
    /// With local palettes the frame goes out at once. With a global palette frames are
    /// buffered until there are enough of them; then the palette is trained on all of them
    /// and they go out together, in order, and after that each frame goes out with the
    /// palette. A frame that finds neither a buffer nor a palette is lost.
    pub open spec fn fed(self, f: FrameView) -> (GifView, Seq<GifFrameView>) {
        if self.palette_mode == PaletteMode::Local {
            (self, seq![self.dressed(f, None)])
        } else {
            match self.warming {
                Some((buffer, target)) => {
                    let full = buffer.push(f);
                    if full.len() >= target {
                        let p = Some(training(full));
                        (
                            GifView { warming: None, palette: p, ..self },
                            self.all_dressed(full, p),
                        )
                    } else {
                        (GifView { warming: Some((full, target)), ..self }, Seq::empty())
                    }
                },
                None => match self.palette {
                    Some(p) => (self, seq![self.dressed(f, Some(p))]),
                    None => (self, Seq::empty()),
                },
            }
        }
    }

    /// The frames that a stop during warmup still sends: the buffered ones, with a palette
    /// trained on them.
    pub open spec fn flushed(self) -> Seq<GifFrameView> {
        match self.warming {
            Some((buffer, _)) => if buffer.len() == 0 {
                Seq::empty()
            } else {
                self.all_dressed(buffer, Some(training(buffer)))
            },
            None => Seq::empty(),
        }
    }
}

/// Dress buffered frames for the encoder.
fn dress_all(
    buffer: Vec<WarmupFrame>,
    default_delay_cs: u16,
    scale: Option<u32>,
    p: &Arc<GlobalPalette>,
) -> (r: Vec<GifFrame>)
    ensures
        gif_views(r@) == frame_views(buffer@).map_values(
            |f: FrameView|
                GifFrameView { frame: f, default_delay_cs, scale, palette: Some(p.trained_on()) },
        ),
{
    let ghost goal = frame_views(buffer@).map_values(
        |f: FrameView|
            GifFrameView { frame: f, default_delay_cs, scale, palette: Some(p.trained_on()) },
    );
    let ghost n = buffer@.len();
    let mut rest = buffer;
    let mut out: Vec<GifFrame> = Vec::new();
    assert(rest@ =~= buffer@.skip(0));
    while rest.len() > 0
        invariant
            goal == frame_views(buffer@).map_values(
                |f: FrameView|
                    GifFrameView {
                        frame: f,
                        default_delay_cs,
                        scale,
                        palette: Some(p.trained_on()),
                    },
            ),
            out@.len() + rest@.len() == buffer@.len(),
            rest@ == buffer@.skip(out@.len() as int),
            gif_views(out@) == goal.take(out@.len() as int),
        decreases rest@.len(),
    {
        let ghost k = out@.len() as int;
        let ghost before = out@;
        let f = rest.remove(0);
        assert(f == buffer@[k]);
        let dressed = GifFrame {
            rgba: f.rgba,
            src_width: f.width,
            src_height: f.height,
            captured_at: f.captured_at,
            default_delay_cs,
            scale,
            global_palette: Some(share(p)),
        };
        out.push(dressed);
        assert(rest@ =~= buffer@.skip(k + 1));
        assert(gif_views(out@) =~= gif_views(before).push(dressed@));
        assert(dressed@ == goal[k]);
        assert(goal.take(k + 1) =~= goal.take(k).push(goal[k]));
    }
    assert(goal.take(goal.len() as int) =~= goal);
    out
}

impl GifWriter {
    /// Train a palette on the buffered frames and dress them for the encoder.
    fn train_and_dress(default_delay_cs: u16, scale: Option<u32>, buffer: Vec<WarmupFrame>) -> (r: (
        Arc<GlobalPalette>,
        Vec<GifFrame>,
    ))
        ensures
            r.0.trained_on() == training(frame_views(buffer@)),
            gif_views(r.1@) == frame_views(buffer@).map_values(
                |f: FrameView|
                    GifFrameView {
                        frame: f,
                        default_delay_cs,
                        scale,
                        palette: Some(training(frame_views(buffer@))),
                    },
            ),
    {
        let p = Arc::new(train_global_palette(&buffer));
        proof {
            training_is_samples(buffer@);
        }
        let frames = dress_all(buffer, default_delay_cs, scale, &p);
        (p, frames)
    }

    /// Take one more frame; returns the frames that go to the encoder.
    pub fn feed(&mut self, frame: WarmupFrame) -> (r: Vec<GifFrame>)
        ensures
            (final(self)@, gif_views(r@)) == old(self)@.fed(frame@),
    {
        let ghost v = self@;
        let ghost fv = frame@;
        let mut out: Vec<GifFrame> = Vec::new();
        if self.palette_mode == PaletteMode::Local {
            let f = GifFrame {
                rgba: frame.rgba,
                src_width: frame.width,
                src_height: frame.height,
                captured_at: frame.captured_at,
                default_delay_cs: self.default_delay_cs,
                scale: self.scale,
                global_palette: None,
            };
            out.push(f);
            assert(gif_views(out@) =~= seq![v.dressed(fv, None)]);
            return out;
        }
        match self.warming.take() {
            Some(w) => {
                let target = w.target_frames;
                let mut buffer = w.buffer;
                let ghost before = buffer@;
                buffer.push(frame);
                assert(frame_views(buffer@) =~= frame_views(before).push(fv));
                if buffer.len() as u64 >= target as u64 {
                    let (p, frames) = GifWriter::train_and_dress(
                        self.default_delay_cs,
                        self.scale,
                        buffer,
                    );
                    self.global_palette = Some(p);
                    assert(gif_views(frames@) =~= v.all_dressed(
                        frame_views(buffer@),
                        Some(training(frame_views(buffer@))),
                    ));
                    assert(self@ =~= v.fed(fv).0);
                    frames
                } else {
                    self.warming = Some(WarmingState { buffer, target_frames: target });
                    assert(gif_views(out@) =~= Seq::<GifFrameView>::empty());
                    assert(self@ =~= v.fed(fv).0);
                    out
                }
            },
            None => {
                match &self.global_palette {
                    Some(p) => {
                        let f = GifFrame {
                            rgba: frame.rgba,
                            src_width: frame.width,
                            src_height: frame.height,
                            captured_at: frame.captured_at,
                            default_delay_cs: self.default_delay_cs,
                            scale: self.scale,
                            global_palette: Some(share(p)),
                        };
                        out.push(f);
                        assert(gif_views(out@) =~= seq![v.dressed(fv, v.palette)]);
                    },
                    None => {
                        assert(gif_views(out@) =~= Seq::<GifFrameView>::empty());
                    },
                }
                assert(self@ =~= v);
                out
            },
        }
    }

    /// The frames that still go to the encoder when the recording stops.
    pub fn flush(self) -> (r: Vec<GifFrame>)
        ensures
            gif_views(r@) == self@.flushed(),
    {
        let ghost v = self@;
        let none: Vec<GifFrame> = Vec::new();
        assert(gif_views(none@) =~= Seq::<GifFrameView>::empty());
        match self.warming {
            Some(w) => if w.buffer.len() == 0 {
                none
            } else {
                let (_, frames) = GifWriter::train_and_dress(
                    self.default_delay_cs,
                    self.scale,
                    w.buffer,
                );
                assert(gif_views(frames@) =~= v.flushed());
                frames
            },
            None => none,
        }
    }
}

// ---------------------------------------------------------------------------
// The session
// ---------------------------------------------------------------------------

/// A running sequence.
pub struct Sequence {
    pub stage: CaptureStage,
    pub writer: SequenceWriter,
    /// Least time between captured frames, in nanoseconds. `None` is every frame.
    pub fps_interval: Option<u64>,
    /// Time of the last captured frame.
    pub last_capture_time: Option<u64>,
    pub frame_count: u32,
}

/// A snapshot that waits for its frame: the files that are still to be written.
pub struct OneShot {
    pub path_pre: Option<String>,
    pub path_post: Option<String>,
}

/// The capture session: at most one running sequence, and beside it at most one snapshot
/// that waits for its frame.
pub struct Capture {
    pub default_dir: String,
    /// What generated names begin with.
    pub example: String,
    pub one_shot: Option<OneShot>,
    pub sequence: Option<Sequence>,
}

/// A writer over plain values.
#[verifier::ext_equal]
pub enum WriterView {
    Png { dir: Seq<char> },
    Gif { gif: GifView },
    Apng { path: Seq<char>, scale: Option<u32> },
}

impl View for SequenceWriter {
    type V = WriterView;

    open spec fn view(&self) -> WriterView {
        match *self {
            SequenceWriter::Png { dir } => WriterView::Png { dir: dir@ },
            SequenceWriter::Gif { gif } => WriterView::Gif { gif: gif@ },
            SequenceWriter::Apng { path, scale } => WriterView::Apng { path: path@, scale },
        }
    }
}

/// A running sequence over plain values.
#[verifier::ext_equal]
pub struct SequenceView {
    pub stage: CaptureStage,
    pub writer: WriterView,
    pub fps_interval: Option<u64>,
    pub last_capture_time: Option<u64>,
    pub frame_count: u32,
}

impl View for Sequence {
    type V = SequenceView;

    open spec fn view(&self) -> SequenceView {
        SequenceView {
            stage: self.stage,
            writer: self.writer@,
            fps_interval: self.fps_interval,
            last_capture_time: self.last_capture_time,
            frame_count: self.frame_count,
        }
    }
}

/// A waiting snapshot over plain values.
#[verifier::ext_equal]
pub struct OneShotView {
    pub path_pre: Option<Seq<char>>,
    pub path_post: Option<Seq<char>>,
}

impl View for OneShot {
    type V = OneShotView;

    open spec fn view(&self) -> OneShotView {
        OneShotView {
            path_pre: capture::opt_view(self.path_pre),
            path_post: capture::opt_view(self.path_post),
        }
    }
}

/// A session over plain values.
#[verifier::ext_equal]
pub struct CaptureView {
    pub default_dir: Seq<char>,
    pub example: Seq<char>,
    pub one_shot: Option<OneShotView>,
    pub sequence: Option<SequenceView>,
}

impl View for Capture {
    type V = CaptureView;

    open spec fn view(&self) -> CaptureView {
        CaptureView {
            default_dir: self.default_dir@,
            example: self.example@,
            one_shot: match self.one_shot {
                Some(o) => Some(o@),
                None => None,
            },
            sequence: match self.sequence {
                Some(s) => Some(s@),
                None => None,
            },
        }
    }
}

/// A sequence that is ready to start once its directory exists.
pub struct SequencePlan {
    pub format: CaptureFormat,
    pub palette: PaletteMode,
    /// The effective capture rate.
    pub fps: Option<u16>,
    pub sequence: Sequence,
}

/// A plan over plain values.
#[verifier::ext_equal]
pub struct PlanView {
    pub format: CaptureFormat,
    pub palette: PaletteMode,
    pub fps: Option<u16>,
    pub sequence: SequenceView,
}

impl View for SequencePlan {
    type V = PlanView;

    open spec fn view(&self) -> PlanView {
        PlanView {
            format: self.format,
            palette: self.palette,
            fps: self.fps,
            sequence: self.sequence@,
        }
    }
}

/// The value, or the other one where there is none.
pub open spec fn or_else<T>(a: Option<T>, b: T) -> T {
    match a {
        Some(x) => x,
        None => b,
    }
}

/// The stage that a format can record: the single-file formats take the final composite
/// where both stages are asked for.
pub open spec fn effective_stage(format: CaptureFormat, stage: CaptureStage) -> CaptureStage {
    if !format.spec_supports_both_stages() && stage == CaptureStage::Both {
        CaptureStage::Post
    } else {
        stage
    }
}

/// The rate asked for, or the format's default.
pub open spec fn effective_fps(format: CaptureFormat, fps: Option<u16>) -> Option<u16> {
    match fps {
        Some(f) => Some(f),
        None => format.spec_default_fps(),
    }
}

impl CaptureView {
    /// The sequence that parameters ask for.
    pub open spec fn plan(self, p: ParamsView, unix_secs: u64) -> PlanView {
        let dir = or_else(p.dir, self.default_dir);
        let name = or_else(p.name, generated_name(self.example, unix_secs));
        let fps = effective_fps(p.format, p.fps);
        let writer = match p.format {
            CaptureFormat::Png => WriterView::Png { dir: joined_path(dir, name) },
            CaptureFormat::Gif => WriterView::Gif {
                gif: GifView {
                    path: joined_path(dir, name + ".gif"@),
                    default_delay_cs: pixels::delay_of_fps(or_else(fps, 30) as nat) as u16,
                    scale: p.scale,
                    palette_mode: p.palette,
                    warming: match p.palette {
                        PaletteMode::Local => None,
                        PaletteMode::Global => Some((Seq::empty(), GIF_WARMUP_FRAMES)),
                    },
                    palette: None,
                    dropped: 0,
                },
            },
            CaptureFormat::Apng => WriterView::Apng {
                path: joined_path(dir, name + ".apng"@),
                scale: p.scale,
            },
        };
        PlanView {
            format: p.format,
            palette: p.palette,
            fps,
            sequence: SequenceView {
                stage: effective_stage(p.format, p.stage),
                writer,
                fps_interval: match fps {
                    Some(f) => Some(pixels::interval_of_fps(f as nat) as u64),
                    None => None,
                },
                last_capture_time: None,
                frame_count: 0,
            },
        }
    }

    /// The snapshot that a one-shot asks for.
    pub open spec fn snapshot(
        self,
        stage: CaptureStage,
        dir: Option<Seq<char>>,
        name: Option<Seq<char>>,
        unix_secs: u64,
    ) -> OneShotView {
        let dir = or_else(dir, self.default_dir);
        let name = or_else(name, generated_name(self.example, unix_secs));
        OneShotView {
            path_pre: if stage.spec_wants_pre() {
                Some(joined_path(dir, name + "_pre.png"@))
            } else {
                None
            },
            path_post: if stage.spec_wants_post() {
                Some(joined_path(dir, name + "_post.png"@))
            } else {
                None
            },
        }
    }
}

/// The message for a started sequence.
pub open spec fn started_text(p: PlanView) -> Seq<char> {
    "capture: sequence started ("@ + p.format.spec_label() + ", "@ + p.sequence.stage.spec_label()
        + ", fps="@ + (match p.fps {
        Some(f) => text::decimal(f as nat),
        None => "unlimited"@,
    }) + ", palette="@ + p.palette.spec_label() + ")"@
}

/// What the runner has to do for a request.
pub enum Step {
    /// Nothing but to log a line.
    Log { line: String },
    /// Create the sequence's directory, start its encoder, and report back.
    Start { plan: SequencePlan },
    /// Send the last frames to the encoder and close it.
    StopGif { path: String, frame_count: u32, dropped: u32, flush: Vec<GifFrame> },
    /// Close the encoder.
    StopApng { path: String },
}

/// A step over plain values.
#[verifier::ext_equal]
pub enum StepView {
    Log { line: Seq<char> },
    Start { plan: PlanView },
    StopGif { path: Seq<char>, frame_count: u32, dropped: u32, flush: Seq<GifFrameView> },
    StopApng { path: Seq<char> },
}

impl View for Step {
    type V = StepView;

    open spec fn view(&self) -> StepView {
        match *self {
            Step::Log { line } => StepView::Log { line: line@ },
            Step::Start { plan } => StepView::Start { plan: plan@ },
            Step::StopGif { path, frame_count, dropped, flush } => StepView::StopGif {
                path: path@,
                frame_count,
                dropped,
                flush: gif_views(flush@),
            },
            Step::StopApng { path } => StepView::StopApng { path: path@ },
        }
    }
}

/// What stopping leads to: the sequence ends if one runs, else a waiting snapshot is
/// cancelled.
pub open spec fn stop_step(v: CaptureView) -> StepView {
    match v.sequence {
        Some(sequence) => match sequence.writer {
            WriterView::Png { dir } => StepView::Log {
                line: "capture: PNG sequence stopped, "@ + text::decimal(
                    sequence.frame_count as nat,
                ) + " frame(s) at "@ + dir,
            },
            WriterView::Gif { gif } => StepView::StopGif {
                path: gif.path,
                frame_count: sequence.frame_count,
                dropped: gif.dropped,
                flush: gif.flushed(),
            },
            WriterView::Apng { path, scale } => StepView::StopApng { path },
        },
        None => if v.one_shot is Some {
            StepView::Log { line: "capture: pending one-shot cancelled"@ }
        } else {
            StepView::Log { line: "capture: stop with no active session (no-op)"@ }
        },
    }
}

/// The session once it was stopped. A snapshot that waits beside a running sequence stays.
pub open spec fn stopped(v: CaptureView) -> CaptureView {
    if v.sequence is Some {
        CaptureView { sequence: None, ..v }
    } else {
        CaptureView { one_shot: None, ..v }
    }
}

/// Why a sequence does not start beside a running one.
pub open spec fn already_running() -> Seq<char> {
    "a sequence is already running"@
}

/// What a request leads to: the session after it and the step for the runner. A running
/// sequence goes on until it is stopped or toggled off.
pub open spec fn requested(v: CaptureView, r: RequestView, unix_secs: u64) -> (CaptureView, StepView) {
    match r {
        RequestView::OneShot { stage, dir, name } => (
            CaptureView { one_shot: Some(v.snapshot(stage, dir, name, unix_secs)), ..v },
            StepView::Log { line: "capture: one-shot queued ("@ + stage.spec_label() + ")"@ },
        ),
        RequestView::StartSequence { params } => if v.sequence is Some {
            (v, StepView::Log { line: start_failed(already_running()) })
        } else {
            (v, StepView::Start { plan: v.plan(params, unix_secs) })
        },
        RequestView::Stop => (stopped(v), stop_step(v)),
        RequestView::Toggle { params } => if v.sequence is Some {
            (stopped(v), stop_step(v))
        } else {
            (v, StepView::Start { plan: v.plan(params, unix_secs) })
        },
    }
}

/// The message for a stopped GIF.
pub open spec fn gif_stopped_text(frame_count: nat, dropped: nat, path: Seq<char>) -> Seq<char> {
    "capture: GIF stream stopped, "@ + text::decimal(frame_count) + " frame(s)"@ + (if dropped
        > 0 {
        ", "@ + text::decimal(dropped) + " dropped under backpressure"@
    } else {
        ""@
    }) + " encoding in background -> "@ + path
}

pub fn gif_stopped_line(frame_count: u32, dropped: u32, path: &str) -> (r: String)
    ensures
        r@ == gif_stopped_text(frame_count as nat, dropped as nat, path@),
{
    let mut s = "capture: GIF stream stopped, ".to_owned();
    s.append(number(frame_count as u64).as_str());
    s.append(" frame(s)");
    let mut note = "".to_owned();
    if dropped > 0 {
        note = ", ".to_owned();
        note.append(number(dropped as u64).as_str());
        note.append(" dropped under backpressure");
    }
    s.append(note.as_str());
    s.append(" encoding in background -> ");
    s.append(path);
    s
}

/// The message for a stopped APNG.
pub open spec fn apng_stopped_text(buffered: nat, path: Seq<char>) -> Seq<char> {
    "capture: APNG stream stopped, "@ + text::decimal(buffered)
        + " frame(s) buffered; assembling and writing in background -> "@ + path
}

pub fn apng_stopped_line(buffered: u32, path: &str) -> (r: String)
    ensures
        r@ == apng_stopped_text(buffered as nat, path@),
{
    let mut s = "capture: APNG stream stopped, ".to_owned();
    s.append(number(buffered as u64).as_str());
    s.append(" frame(s) buffered; assembling and writing in background -> ");
    s.append(path);
    s
}

/// The message for a sequence that could not be started.
pub open spec fn start_failed(error: Seq<char>) -> Seq<char> {
    "capture: failed to start sequence: "@ + error
}

pub fn start_failed_line(error: &str) -> (r: String)
    ensures
        r@ == start_failed(error@),
{
    let mut s = "capture: failed to start sequence: ".to_owned();
    s.append(error);
    s
}

fn or_clone(a: Option<String>, b: &str) -> (r: String)
    ensures
        r@ == or_else(capture::opt_view(a), b@),
{
    match a {
        Some(s) => s,
        None => b.to_owned(),
    }
}

fn with_suffix(name: &str, suffix: &str) -> (r: String)
    ensures
        r@ == name@ + suffix@,
{
    let mut s = name.to_owned();
    s.append(suffix);
    s
}

impl Capture {
    /// An idle session that writes below `captures`.
    pub fn new(example: &str) -> (r: Capture)
        ensures
            r@ == (CaptureView {
                default_dir: "captures"@,
                example: example@,
                one_shot: None,
                sequence: None,
            }),
    {
        Capture {
            default_dir: "captures".to_owned(),
            example: example.to_owned(),
            one_shot: None,
            sequence: None,
        }
    }

    /// The sequence that parameters ask for.
    pub fn plan_sequence(&self, params: SequenceParams, unix_secs: u64) -> (r: SequencePlan)
        ensures
            r@ == self@.plan(params@, unix_secs),
    {
        let dir = or_clone(params.dir, self.default_dir.as_str());
        let generated = default_name(self.example.as_str(), unix_secs);
        let name = or_clone(params.name, generated.as_str());
        let format = params.format;
        let fps = match params.fps {
            Some(f) => Some(f),
            None => format.default_fps(),
        };
        let stage = if !format.supports_both_stages() && params.stage == CaptureStage::Both {
            CaptureStage::Post
        } else {
            params.stage
        };
        let writer = match format {
            CaptureFormat::Png => SequenceWriter::Png {
                dir: join_path(dir.as_str(), name.as_str()),
            },
            CaptureFormat::Gif => {
                let file = with_suffix(name.as_str(), ".gif");
                let rate: u16 = match fps {
                    Some(f) => f,
                    None => 30,
                };
                let warming = match params.palette {
                    PaletteMode::Local => None,
                    PaletteMode::Global => {
                        let empty: Vec<WarmupFrame> = Vec::new();
                        assert(frame_views(empty@) =~= Seq::<FrameView>::empty());
                        Some(WarmingState { buffer: empty, target_frames: GIF_WARMUP_FRAMES })
                    },
                };
                SequenceWriter::Gif {
                    gif: GifWriter {
                        path: join_path(dir.as_str(), file.as_str()),
                        default_delay_cs: fps_to_centiseconds(rate),
                        scale: params.scale,
                        palette_mode: params.palette,
                        warming,
                        global_palette: None,
                        dropped: 0,
                    },
                }
            },
            CaptureFormat::Apng => {
                let file = with_suffix(name.as_str(), ".apng");
                SequenceWriter::Apng {
                    path: join_path(dir.as_str(), file.as_str()),
                    scale: params.scale,
                }
            },
        };
        let fps_interval = match fps {
            Some(f) => Some(fps_to_interval(f)),
            None => None,
        };
        SequencePlan {
            format,
            palette: params.palette,
            fps,
            sequence: Sequence {
                stage,
                writer,
                fps_interval,
                last_capture_time: None,
                frame_count: 0,
            },
        }
    }

    /// Start a planned sequence; returns the line to log. A running sequence is not ended by
    /// another: then nothing changes. A waiting snapshot stays.
    pub fn start_sequence(&mut self, plan: SequencePlan) -> (r: Result<String, CaptureError>)
        ensures
            old(self)@.sequence is Some ==> r is Err && r->Err_0.message@ == already_running()
                && *final(self) == *old(self),
            old(self)@.sequence is None ==> r is Ok && r->Ok_0@ == started_text(plan@)
                && final(self)@ == (CaptureView { sequence: Some(plan@.sequence), ..old(self)@ }),
    {
        if self.sequence.is_some() {
            return Err(CaptureError { message: "a sequence is already running".to_owned() });
        }
        let mut s = "capture: sequence started (".to_owned();
        s.append(plan.format.label());
        s.append(", ");
        s.append(plan.sequence.stage.label());
        s.append(", fps=");
        match plan.fps {
            Some(f) => {
                s.append(number(f as u64).as_str());
            },
            None => {
                s.append("unlimited");
            },
        }
        s.append(", palette=");
        s.append(plan.palette.label());
        s.append(")");
        self.sequence = Some(plan.sequence);
        Ok(s)
    }

    /// Stop the running sequence; without one, cancel a waiting snapshot.
    pub fn stop(&mut self) -> (r: Step)
        ensures
            r@ == stop_step(old(self)@),
            final(self)@ == stopped(old(self)@),
    {
        match self.sequence.take() {
            Some(sequence) => {
                let frame_count = sequence.frame_count;
                match sequence.writer {
                    SequenceWriter::Png { dir } => {
                        let mut s = "capture: PNG sequence stopped, ".to_owned();
                        s.append(number(frame_count as u64).as_str());
                        s.append(" frame(s) at ");
                        s.append(dir.as_str());
                        Step::Log { line: s }
                    },
                    SequenceWriter::Gif { gif } => {
                        let path = gif.path.clone();
                        let dropped = gif.dropped;
                        let flush = gif.flush();
                        Step::StopGif { path, frame_count, dropped, flush }
                    },
                    SequenceWriter::Apng { path, .. } => Step::StopApng { path },
                }
            },
            None => match self.one_shot.take() {
                Some(_) => Step::Log { line: "capture: pending one-shot cancelled".to_owned() },
                None => Step::Log {
                    line: "capture: stop with no active session (no-op)".to_owned(),
                },
            },
        }
    }

    /// Take up one request.
    pub fn apply_request(&mut self, request: CaptureRequest, unix_secs: u64) -> (r: Step)
        ensures
            (final(self)@, r@) == requested(old(self)@, request@, unix_secs),
    {
        match request {
            CaptureRequest::OneShot { stage, dir, name } => {
                let dir = or_clone(dir, self.default_dir.as_str());
                let generated = default_name(self.example.as_str(), unix_secs);
                let name = or_clone(name, generated.as_str());
                let path_pre = if stage.wants_pre() {
                    let file = with_suffix(name.as_str(), "_pre.png");
                    Some(join_path(dir.as_str(), file.as_str()))
                } else {
                    None
                };
                let path_post = if stage.wants_post() {
                    let file = with_suffix(name.as_str(), "_post.png");
                    Some(join_path(dir.as_str(), file.as_str()))
                } else {
                    None
                };
                self.one_shot = Some(OneShot { path_pre, path_post });
                let mut s = "capture: one-shot queued (".to_owned();
                s.append(stage.label());
                s.append(")");
                Step::Log { line: s }
            },
            CaptureRequest::StartSequence { params } => if self.sequence.is_some() {
                Step::Log { line: start_failed_line("a sequence is already running") }
            } else {
                Step::Start { plan: self.plan_sequence(params, unix_secs) }
            },
            CaptureRequest::Stop => self.stop(),
            CaptureRequest::Toggle { params } => if self.sequence.is_some() {
                self.stop()
            } else {
                Step::Start { plan: self.plan_sequence(params, unix_secs) }
            },
        }
    }
}

// ---------------------------------------------------------------------------
// Frames
// ---------------------------------------------------------------------------

/// What the runner has to do with a frame.
pub enum FrameAction {
    /// Write the pixels as a PNG file.
    WritePng { path: String, frame: WarmupFrame },
    /// Send frames to the GIF encoder.
    SendGif { frames: Vec<GifFrame> },
    /// Send a frame to the APNG encoder.
    SendApng { frame: ApngFrame },
}

/// A frame action over plain values.
#[verifier::ext_equal]
pub enum ActionView {
    WritePng { path: Seq<char>, frame: FrameView },
    SendGif { frames: Seq<GifFrameView> },
    SendApng { frame: FrameView, scale: Option<u32> },
}

impl View for FrameAction {
    type V = ActionView;

    open spec fn view(&self) -> ActionView {
        match *self {
            FrameAction::WritePng { path, frame } => ActionView::WritePng {
                path: path@,
                frame: frame@,
            },
            FrameAction::SendGif { frames } => ActionView::SendGif { frames: gif_views(frames@) },
            FrameAction::SendApng { frame } => ActionView::SendApng {
                frame: FrameView {
                    rgba: frame.rgba@,
                    width: frame.src_width,
                    height: frame.src_height,
                    captured_at: frame.captured_at,
                },
                scale: frame.scale,
            },
        }
    }
}

/// Actions over plain values.
pub open spec fn action_views(s: Seq<FrameAction>) -> Seq<ActionView> {
    s.map_values(|a: FrameAction| a@)
}

/// The name of a stage's files.
pub open spec fn tap_name(is_pre: bool) -> Seq<char> {
    if is_pre {
        "pre"@
    } else {
        "post"@
    }
}

/// The file of a PNG sequence's frame: `{stage}_{frame:06}.png`.
pub open spec fn sequence_file(dir: Seq<char>, is_pre: bool, frame_idx: u32) -> Seq<char> {
    joined_path(dir, tap_name(is_pre) + "_"@ + text::zero_filled(frame_idx as nat, 6) + ".png"@)
}

impl WriterView {
    /// What a writer makes of a frame: the writer after it and the action for the runner.
    pub open spec fn written(self, is_pre: bool, frame_idx: u32, f: FrameView) -> (
        WriterView,
        ActionView,
    ) {
        match self {
            WriterView::Png { dir } => (
                self,
                ActionView::WritePng { path: sequence_file(dir, is_pre, frame_idx), frame: f },
            ),
            WriterView::Gif { gif } => (
                WriterView::Gif { gif: gif.fed(f).0 },
                ActionView::SendGif { frames: gif.fed(f).1 },
            ),
            WriterView::Apng { path, scale } => (self, ActionView::SendApng { frame: f, scale }),
        }
    }
}

impl SequenceWriter {
    /// Hand a frame to the writer.
    pub fn write_frame(&mut self, is_pre: bool, frame_idx: u32, frame: WarmupFrame) -> (r:
        FrameAction)
        ensures
            (final(self)@, r@) == old(self)@.written(is_pre, frame_idx, frame@),
    {
        match self {
            SequenceWriter::Png { dir } => {
                let mut file = (if is_pre {
                    "pre"
                } else {
                    "post"
                }).to_owned();
                file.append("_");
                file.append(number_filled(frame_idx as u64, 6).as_str());
                file.append(".png");
                let path = join_path(dir.as_str(), file.as_str());
                FrameAction::WritePng { path, frame }
            },
            SequenceWriter::Gif { gif } => FrameAction::SendGif { frames: gif.feed(frame) },
            SequenceWriter::Apng { scale, .. } => FrameAction::SendApng {
                frame: ApngFrame {
                    rgba: frame.rgba,
                    src_width: frame.width,
                    src_height: frame.height,
                    captured_at: frame.captured_at,
                    scale: *scale,
                },
            },
        }
    }
}

impl OneShotView {
    /// The file that a tap's frame goes to, if it is still to be written.
    pub open spec fn path(self, is_pre: bool) -> Option<Seq<char>> {
        if is_pre {
            self.path_pre
        } else {
            self.path_post
        }
    }

    /// The snapshot once a tap's frame has been handed over.
    pub open spec fn tapped(self, is_pre: bool) -> OneShotView {
        if is_pre {
            OneShotView { path_pre: None, ..self }
        } else {
            OneShotView { path_post: None, ..self }
        }
    }
}

impl SequenceView {
    /// Is the sequence's next frame due at `now`?
    pub open spec fn is_due(self, now: u64) -> bool {
        match (self.fps_interval, self.last_capture_time) {
            (Some(interval), Some(last)) => if now >= last {
                now - last >= interval
            } else {
                interval == 0
            },
            _ => true,
        }
    }

    /// Does the sequence record this tap?
    pub open spec fn records(self, is_pre: bool) -> bool {
        if is_pre {
            self.stage.spec_wants_pre()
        } else {
            self.stage.spec_wants_post()
        }
    }

    /// The sequence once a frame was counted.
    pub open spec fn counted(self, now: u64) -> SequenceView {
        SequenceView {
            last_capture_time: Some(now),
            frame_count: if self.frame_count == u32::MAX {
                u32::MAX
            } else {
                (self.frame_count + 1) as u32
            },
            ..self
        }
    }
}

impl CaptureView {
    /// Does the running sequence take the frame of this tap at `now`? The runner hands over
    /// what is due. While a snapshot waits, frames are captured for its sake alone too; the
    /// sequence then takes only those that it would have had without it.
    pub open spec fn takes(self, is_pre: bool, now: u64) -> bool {
        match self.sequence {
            None => false,
            Some(sequence) => self.one_shot is None || (sequence.records(is_pre)
                && sequence.is_due(now)),
        }
    }

    /// What a session makes of a frame from one of the taps: the snapshot's file comes first,
    /// then what the sequence does with the frame.
    pub open spec fn consumed(self, is_pre: bool, f: FrameView) -> (CaptureView, Seq<ActionView>) {
        let (one_shot, written) = match self.one_shot {
            None => (None, Seq::<ActionView>::empty()),
            Some(shot) => (
                Some(shot.tapped(is_pre)),
                match shot.path(is_pre) {
                    Some(p) => seq![ActionView::WritePng { path: p, frame: f }],
                    None => Seq::empty(),
                },
            ),
        };
        if self.takes(is_pre, f.captured_at) {
            let sequence = self.sequence->0;
            let w = sequence.writer.written(is_pre, sequence.frame_count, f);
            (
                CaptureView {
                    one_shot,
                    sequence: Some(SequenceView { writer: w.0, ..sequence }),
                    ..self
                },
                written.push(w.1),
            )
        } else {
            (CaptureView { one_shot, ..self }, written)
        }
    }

    /// The session once a frame's taps have been handed over: a snapshot is done when both
    /// requested stages are written; a sequence that took part counts the frame and notes
    /// the time.
    pub open spec fn advanced(self, now: u64) -> CaptureView {
        CaptureView {
            one_shot: match self.one_shot {
                Some(shot) => if shot.path_pre is None && shot.path_post is None {
                    None
                } else {
                    Some(shot)
                },
                None => None,
            },
            sequence: match self.sequence {
                Some(sequence) => if self.one_shot is None || sequence.is_due(now) {
                    Some(sequence.counted(now))
                } else {
                    Some(sequence)
                },
                None => None,
            },
            ..self
        }
    }

    /// Does the session want this tap?
    pub open spec fn wants(self, is_pre: bool) -> bool {
        ||| self.one_shot is Some && self.one_shot->0.path(is_pre) is Some
        ||| self.sequence is Some && self.sequence->0.records(is_pre)
    }

    /// Is a frame due at `now`?
    pub open spec fn is_due(self, now: u64) -> bool {
        self.one_shot is Some || (self.sequence is Some && self.sequence->0.is_due(now))
    }

    /// The status line: none when idle. A running sequence shows before a waiting snapshot.
    pub open spec fn status_text(self) -> Option<Seq<char>> {
        match self.sequence {
            Some(sequence) => match sequence.writer {
                WriterView::Gif { gif } => match gif.warming {
                    Some((buffer, target)) => Some(
                        "WARMING "@ + text::decimal(buffer.len()) + "/"@ + text::decimal(
                            target as nat,
                        ),
                    ),
                    None => Some(recording_text(sequence.frame_count as nat, gif.dropped as nat)),
                },
                _ => Some(recording_text(sequence.frame_count as nat, 0)),
            },
            None => if self.one_shot is Some {
                Some("snap"@)
            } else {
                None
            },
        }
    }
}

/// `REC n`, with the number of dropped frames if there are any.
pub open spec fn recording_text(frames: nat, dropped: nat) -> Seq<char> {
    if dropped > 0 {
        "REC "@ + text::decimal(frames) + " ("@ + text::decimal(dropped) + " dropped)"@
    } else {
        "REC "@ + text::decimal(frames)
    }
}

fn recording_string(frames: u32, dropped: u32) -> (r: String)
    ensures
        r@ == recording_text(frames as nat, dropped as nat),
{
    let mut s = "REC ".to_owned();
    s.append(number(frames as u64).as_str());
    if dropped > 0 {
        s.append(" (");
        s.append(number(dropped as u64).as_str());
        s.append(" dropped)");
    }
    s
}

/// Is `n` a power of two?
pub open spec fn is_power_of_two(n: nat) -> bool
    decreases n,
{
    if n <= 1 {
        n == 1
    } else {
        n % 2 == 0 && is_power_of_two(n / 2)
    }
}

fn power_of_two(n: u32) -> (r: bool)
    ensures
        r == is_power_of_two(n as nat),
    decreases n,
{
    if n <= 1 {
        n == 1
    } else {
        n % 2 == 0 && power_of_two(n / 2)
    }
}

fn copy_frame(f: &WarmupFrame) -> (r: WarmupFrame)
    ensures
        r@ == f@,
{
    let rgba = f.rgba.clone();
    assert(rgba@ =~= f.rgba@);
    WarmupFrame { rgba, width: f.width, height: f.height, captured_at: f.captured_at }
}

impl Sequence {
    fn is_due(&self, now: u64) -> (r: bool)
        ensures
            r == self@.is_due(now),
    {
        match (self.fps_interval, self.last_capture_time) {
            (Some(interval), Some(last)) => if now >= last {
                now - last >= interval
            } else {
                interval == 0
            },
            _ => true,
        }
    }

    fn records(&self, is_pre: bool) -> (r: bool)
        ensures
            r == self@.records(is_pre),
    {
        if is_pre {
            self.stage.wants_pre()
        } else {
            self.stage.wants_post()
        }
    }
}

impl Capture {
    /// Compact status string for the window title or the panel. `None` when idle.
    pub fn status(&self) -> (r: Option<String>)
        ensures
            capture::opt_view(r) == self@.status_text(),
    {
        match &self.sequence {
            Some(sequence) => match &sequence.writer {
                SequenceWriter::Gif { gif } => match &gif.warming {
                    Some(w) => {
                        let mut s = "WARMING ".to_owned();
                        s.append(number(w.buffer.len() as u64).as_str());
                        s.append("/");
                        s.append(number(w.target_frames as u64).as_str());
                        Some(s)
                    },
                    None => Some(recording_string(sequence.frame_count, gif.dropped)),
                },
                _ => Some(recording_string(sequence.frame_count, 0)),
            },
            None => if self.one_shot.is_some() {
                Some("snap".to_owned())
            } else {
                None
            },
        }
    }

    fn wants_tap(&self, is_pre: bool) -> (r: bool)
        ensures
            r == self@.wants(is_pre),
    {
        let by_shot = match &self.one_shot {
            Some(shot) => if is_pre {
                shot.path_pre.is_some()
            } else {
                shot.path_post.is_some()
            },
            None => false,
        };
        by_shot || match &self.sequence {
            Some(sequence) => sequence.records(is_pre),
            None => false,
        }
    }

    /// Does the session want the scene before the interface is painted?
    pub fn wants_pre(&self) -> (r: bool)
        ensures
            r == self@.wants(true),
    {
        self.wants_tap(true)
    }

    /// Does the session want the final composite?
    pub fn wants_post(&self) -> (r: bool)
        ensures
            r == self@.wants(false),
    {
        self.wants_tap(false)
    }

    /// Should this frame be captured? Sequences with a rate wait out their interval.
    pub fn should_capture(&self, now: u64) -> (r: bool)
        ensures
            r == self@.is_due(now),
    {
        self.one_shot.is_some() || match &self.sequence {
            Some(sequence) => sequence.is_due(now),
            None => false,
        }
    }

    /// Hand one stage's pixels to the session. Returns what to do with them, in order.
    pub fn consume_frame(&mut self, is_pre: bool, frame: WarmupFrame) -> (r: Vec<FrameAction>)
        ensures
            (final(self)@, action_views(r@)) == old(self)@.consumed(is_pre, frame@),
    {
        let ghost v = self@;
        let ghost fv = frame@;
        let mut out: Vec<FrameAction> = Vec::new();
        let alone = self.one_shot.is_none();
        if let Some(shot) = &mut self.one_shot {
            let path = if is_pre {
                shot.path_pre.take()
            } else {
                shot.path_post.take()
            };
            if let Some(path) = path {
                out.push(FrameAction::WritePng { path, frame: copy_frame(&frame) });
            }
        }
        let ghost written = action_views(out@);
        assert(written =~= (CaptureView { sequence: None, ..v }).consumed(is_pre, fv).1);
        if let Some(sequence) = &mut self.sequence {
            if alone || (sequence.records(is_pre) && sequence.is_due(frame.captured_at)) {
                let idx = sequence.frame_count;
                let action = sequence.writer.write_frame(is_pre, idx, frame);
                out.push(action);
                assert(action_views(out@) =~= written.push(action@));
            }
        }
        assert(self@ =~= v.consumed(is_pre, fv).0);
        assert(action_views(out@) =~= v.consumed(is_pre, fv).1);
        out
    }

    /// Mark the current frame as written.
    pub fn advance_frame(&mut self, now: u64)
        ensures
            final(self)@ == old(self)@.advanced(now),
    {
        let ghost v = self@;
        let alone = self.one_shot.is_none();
        let done = match &self.one_shot {
            Some(shot) => shot.path_pre.is_none() && shot.path_post.is_none(),
            None => false,
        };
        if done {
            self.one_shot = None;
        }
        if let Some(sequence) = &mut self.sequence {
            if alone || sequence.is_due(now) {
                sequence.last_capture_time = Some(now);
                if sequence.frame_count < u32::MAX {
                    sequence.frame_count = sequence.frame_count + 1;
                }
            }
        }
        assert(self@ =~= v.advanced(now));
    }

    /// Note that the GIF encoder's queue had no room for a frame. Returns the number of
    /// dropped frames whenever it is a power of two, for a warning.
    pub fn note_dropped(&mut self) -> (r: Option<u32>)
        ensures
            match old(self)@.sequence {
                Some(sequence) => match sequence.writer {
                    WriterView::Gif { gif } => {
                        let n = (if gif.dropped == u32::MAX { 0 } else { gif.dropped + 1 }) as u32;
                        &&& final(self)@ == (CaptureView {
                            sequence: Some(
                                SequenceView {
                                    writer: WriterView::Gif {
                                        gif: GifView { dropped: n, ..gif },
                                    },
                                    ..sequence
                                },
                            ),
                            ..old(self)@
                        })
                        &&& r == (if is_power_of_two(n as nat) {
                            Some(n)
                        } else {
                            None
                        })
                    },
                    _ => final(self)@ == old(self)@ && r is None,
                },
                None => final(self)@ == old(self)@ && r is None,
            },
    {
        match &mut self.sequence {
            Some(sequence) => match &mut sequence.writer {
                SequenceWriter::Gif { gif } => {
                    gif.dropped = if gif.dropped == u32::MAX {
                        0
                    } else {
                        gif.dropped + 1
                    };
                    if power_of_two(gif.dropped) {
                        Some(gif.dropped)
                    } else {
                        None
                    }
                },
                _ => None,
            },
            None => None,
        }
    }
}

} // verus!
