//! Frame capture: PNG snapshots, PNG sequences, animated GIF and animated PNG streams, with
//! two taps: `pre` (the 3D scene before the interface is painted) and `post` (the final
//! composite).
//!
//! Console commands and the panel put [`CaptureRequest`]s into a [`CaptureHub`]; the runner
//! drains it once per frame into the [`session::Capture`] state machine and performs the
//! steps that it answers with.
//!
//! Output layout:
//!
//! - one-shot PNG: `{dir}/{name}_post.png` (or `_pre.png`, or both)
//! - PNG sequence: `{dir}/{name}/{stage}_{frame:06}.png`
//! - GIF stream: `{dir}/{name}.gif`
//! - APNG stream: `{dir}/{name}.apng`

use vstd::prelude::*;

pub mod args;
pub mod command;
pub mod encode;
pub mod laws;
pub mod palette;
pub mod panel;
pub mod pixels;
pub mod session;

verus! {

/// Where in the frame pipeline the capture is taken from.
#[derive(Copy, Clone, Debug, PartialEq, Eq, Structural)]
pub enum CaptureStage {
    /// Pure 3D scene before the interface paints. Requires MSAA off.
    Pre,
    /// Final composite after the interface paints.
    Post,
    /// Both, written to two separate files per frame. PNG-only.
    Both,
}

impl CaptureStage {
    pub open spec fn spec_wants_pre(self) -> bool {
        self != CaptureStage::Post
    }

    pub open spec fn spec_wants_post(self) -> bool {
        self != CaptureStage::Pre
    }

    pub open spec fn spec_label(self) -> Seq<char> {
        match self {
            CaptureStage::Pre => "Pre"@,
            CaptureStage::Post => "Post"@,
            CaptureStage::Both => "Both"@,
        }
    }

    pub fn wants_pre(self) -> (r: bool)
        ensures
            r == self.spec_wants_pre(),
    {
        match self {
            CaptureStage::Pre | CaptureStage::Both => true,
            CaptureStage::Post => false,
        }
    }

    pub fn wants_post(self) -> (r: bool)
        ensures
            r == self.spec_wants_post(),
    {
        match self {
            CaptureStage::Post | CaptureStage::Both => true,
            CaptureStage::Pre => false,
        }
    }

    /// The stage as it is shown in messages.
    pub fn label(self) -> (r: &'static str)
        ensures
            r@ == self.spec_label(),
    {
        match self {
            CaptureStage::Pre => "Pre",
            CaptureStage::Post => "Post",
            CaptureStage::Both => "Both",
        }
    }
}

/// Output format for streaming captures.
#[derive(Copy, Clone, Debug, PartialEq, Eq, Structural)]
pub enum CaptureFormat {
    /// One PNG file per frame; both stages can be written in parallel. Every render frame
    /// by default.
    Png,
    /// Single animated GIF, palette-quantized, infinite loop, one stage only. 30 frames per
    /// second by default.
    Gif,
    /// Single animated PNG, lossless, infinite loop, one stage only. 30 frames per second by
    /// default.
    Apng,
}

impl CaptureFormat {
    pub open spec fn spec_default_fps(self) -> Option<u16> {
        match self {
            CaptureFormat::Png => None,
            CaptureFormat::Gif | CaptureFormat::Apng => Some(30),
        }
    }

    pub open spec fn spec_supports_both_stages(self) -> bool {
        self == CaptureFormat::Png
    }

    pub open spec fn spec_label(self) -> Seq<char> {
        match self {
            CaptureFormat::Png => "Png"@,
            CaptureFormat::Gif => "Gif"@,
            CaptureFormat::Apng => "Apng"@,
        }
    }

    /// The capture rate of a sequence that asks for none; `None` is every render frame.
    pub fn default_fps(self) -> (r: Option<u16>)
        ensures
            r == self.spec_default_fps(),
    {
        match self {
            CaptureFormat::Png => None,
            CaptureFormat::Gif | CaptureFormat::Apng => Some(30),
        }
    }

    /// Only PNG sequences write two parallel files; the single-file formats carry one
    /// stream.
    pub fn supports_both_stages(self) -> (r: bool)
        ensures
            r == self.spec_supports_both_stages(),
    {
        match self {
            CaptureFormat::Png => true,
            _ => false,
        }
    }

    /// The format as it is shown in messages.
    pub fn label(self) -> (r: &'static str)
        ensures
            r@ == self.spec_label(),
    {
        match self {
            CaptureFormat::Png => "Png",
            CaptureFormat::Gif => "Gif",
            CaptureFormat::Apng => "Apng",
        }
    }
}

/// How GIF frames are palette-quantized.
#[derive(Copy, Clone, Debug, PartialEq, Eq, Structural)]
pub enum PaletteMode {
    /// Each frame gets its own 256-color palette. Best for a single frame, but neighbouring
    /// frames pick slightly different palettes, so smooth gradients shimmer.
    Local,
    /// One palette trained on the first captures and reused for every frame.
    Global,
}

impl PaletteMode {
    pub open spec fn spec_label(self) -> Seq<char> {
        match self {
            PaletteMode::Local => "Local"@,
            PaletteMode::Global => "Global"@,
        }
    }

    /// The mode as it is shown in messages.
    pub fn label(self) -> (r: &'static str)
        ensures
            r@ == self.spec_label(),
    {
        match self {
            PaletteMode::Local => "Local",
            PaletteMode::Global => "Global",
        }
    }
}

impl Default for PaletteMode {
    fn default() -> (r: PaletteMode)
        ensures
            r == PaletteMode::Local,
    {
        PaletteMode::Local
    }
}

/// The parameters of a streaming sequence.
pub struct SequenceParams {
    pub format: CaptureFormat,
    pub stage: CaptureStage,
    pub dir: Option<String>,
    pub name: Option<String>,
    /// Capture rate cap in frames per second. `None` means the format's default.
    pub fps: Option<u16>,
    /// Output width in pixels; the height keeps the aspect ratio. `None` captures at native
    /// resolution. PNG sequences ignore it.
    pub scale: Option<u32>,
    /// GIF palette strategy; the other formats ignore it.
    pub palette: PaletteMode,
}

/// An optional text.
pub open spec fn opt_view(s: Option<String>) -> Option<Seq<char>> {
    match s {
        Some(t) => Some(t@),
        None => None,
    }
}

/// Sequence parameters over plain values.
#[verifier::ext_equal]
pub struct ParamsView {
    pub format: CaptureFormat,
    pub stage: CaptureStage,
    pub dir: Option<Seq<char>>,
    pub name: Option<Seq<char>>,
    pub fps: Option<u16>,
    pub scale: Option<u32>,
    pub palette: PaletteMode,
}

impl View for SequenceParams {
    type V = ParamsView;

    open spec fn view(&self) -> ParamsView {
        ParamsView {
            format: self.format,
            stage: self.stage,
            dir: opt_view(self.dir),
            name: opt_view(self.name),
            fps: self.fps,
            scale: self.scale,
            palette: self.palette,
        }
    }
}

/// A capture command queued for the runner.
pub enum CaptureRequest {
    /// Capture exactly one frame as PNG and stop. Stage `Both` writes two files.
    OneShot { stage: CaptureStage, dir: Option<String>, name: Option<String> },
    /// Start a streaming sequence. Continues until a stop or the next toggle.
    StartSequence { params: SequenceParams },
    /// Stop the current sequence, if any. No-op when idle.
    Stop,
    /// Stop if any sequence is running, start with these parameters if none is.
    Toggle { params: SequenceParams },
}

/// A request over plain values.
#[verifier::ext_equal]
pub enum RequestView {
    OneShot { stage: CaptureStage, dir: Option<Seq<char>>, name: Option<Seq<char>> },
    StartSequence { params: ParamsView },
    Stop,
    Toggle { params: ParamsView },
}

impl View for CaptureRequest {
    type V = RequestView;

    open spec fn view(&self) -> RequestView {
        match *self {
            CaptureRequest::OneShot { stage, dir, name } => RequestView::OneShot {
                stage,
                dir: opt_view(dir),
                name: opt_view(name),
            },
            CaptureRequest::StartSequence { params } => RequestView::StartSequence {
                params: params@,
            },
            CaptureRequest::Stop => RequestView::Stop,
            CaptureRequest::Toggle { params } => RequestView::Toggle { params: params@ },
        }
    }
}

/// What a queue asks for.
pub open spec fn request_views(s: Seq<CaptureRequest>) -> Seq<RequestView> {
    s.map_values(|r: CaptureRequest| r@)
}

/// What the interface and the runner tell each other: queued requests, the published
/// status, and whether the console wants the panel open.
pub struct CaptureHub {
    pub queue: Vec<CaptureRequest>,
    pub status: Option<String>,
    pub panel_open: bool,
}

/// A hub over plain values.
#[verifier::ext_equal]
pub struct HubView {
    pub queue: Seq<RequestView>,
    pub status: Option<Seq<char>>,
    pub panel_open: bool,
}

impl View for CaptureHub {
    type V = HubView;

    open spec fn view(&self) -> HubView {
        HubView {
            queue: request_views(self.queue@),
            status: opt_view(self.status),
            panel_open: self.panel_open,
        }
    }
}

impl CaptureHub {
    pub fn new() -> (r: CaptureHub)
        ensures
            r@ == (HubView { queue: Seq::empty(), status: None, panel_open: false }),
    {
        let r = CaptureHub { queue: Vec::new(), status: None, panel_open: false };
        assert(r@.queue =~= Seq::empty());
        r
    }
}

/// Push a capture request onto the queue. Drained by the runner on the next frame.
pub fn enqueue(hub: &mut CaptureHub, req: CaptureRequest)
    ensures
        final(hub)@ == (HubView { queue: old(hub)@.queue.push(req@), ..old(hub)@ }),
{
    let ghost before = hub.queue@;
    hub.queue.push(req);
    assert(request_views(hub.queue@) =~= request_views(before).push(req@));
}

/// Take every queued request, oldest first.
pub fn drain_requests(hub: &mut CaptureHub) -> (r: Vec<CaptureRequest>)
    ensures
        request_views(r@) == old(hub)@.queue,
        final(hub)@ == (HubView { queue: Seq::empty(), ..old(hub)@ }),
{
    let mut taken: Vec<CaptureRequest> = Vec::new();
    std::mem::swap(&mut taken, &mut hub.queue);
    assert(request_views(hub.queue@) =~= Seq::empty());
    taken
}

/// Compact one-line status string set by the runner each frame. `None` when idle.
pub fn current_status(hub: &CaptureHub) -> (r: Option<String>)
    ensures
        opt_view(r) == hub@.status,
{
    match &hub.status {
        Some(s) => Some(s.clone()),
        None => None,
    }
}

/// Publish the status of the session.
pub fn publish_status(hub: &mut CaptureHub, status: Option<String>)
    ensures
        final(hub)@ == (HubView { status: opt_view(status), ..old(hub)@ }),
{
    hub.status = status;
}

/// Flip whether the console wants the panel open; returns the new state.
pub fn toggle_panel_global(hub: &mut CaptureHub) -> (r: bool)
    ensures
        r == !old(hub)@.panel_open,
        final(hub)@ == (HubView { panel_open: r, ..old(hub)@ }),
{
    hub.panel_open = !hub.panel_open;
    hub.panel_open
}

// ---------------------------------------------------------------------------
// Laws
// ---------------------------------------------------------------------------

/// Requests come out in the order in which they went in, each once.
pub proof fn requests_come_out_in_order()
    ensures
        forall|hub: &mut CaptureHub, req: CaptureRequest, u: ()| #[trigger]
            call_ensures(enqueue, (hub, req), u) ==> {
                &&& (*final(hub))@.queue.len() == (*hub)@.queue.len() + 1
                &&& (*final(hub))@.queue.last() == req@
                &&& (*final(hub))@.queue.drop_last() == (*hub)@.queue
                &&& (*final(hub))@.status == (*hub)@.status
                &&& (*final(hub))@.panel_open == (*hub)@.panel_open
            },
        forall|hub: &mut CaptureHub, r: Vec<CaptureRequest>| #[trigger]
            call_ensures(drain_requests, (hub,), r) ==> {
                &&& r@.len() == (*hub)@.queue.len()
                &&& forall|i: int| 0 <= i < r@.len() ==> (#[trigger] r@[i])@ == (*hub)@.queue[i]
                &&& (*final(hub))@.queue.len() == 0
                &&& (*final(hub))@.status == (*hub)@.status
                &&& (*final(hub))@.panel_open == (*hub)@.panel_open
            },
{
    assert forall|hub: &mut CaptureHub, req: CaptureRequest, u: ()| #[trigger]
        call_ensures(enqueue, (hub, req), u) implies (*final(hub))@.queue.drop_last() == (
    *hub)@.queue by {
        assert((*hub)@.queue.push(req@).drop_last() =~= (*hub)@.queue);
    }
    assert forall|hub: &mut CaptureHub, r: Vec<CaptureRequest>| #[trigger]
        call_ensures(drain_requests, (hub,), r) implies r@.len() == (*hub)@.queue.len() && forall|
        i: int,
    |
        0 <= i < r@.len() ==> (#[trigger] r@[i])@ == (*hub)@.queue[i] by {
        let a = request_views(r@);
        assert(a.len() == r@.len());
        assert forall|i: int| 0 <= i < r@.len() implies (#[trigger] r@[i])@ == (
        *hub)@.queue[i] by {
            assert(a[i] == r@[i]@);
        }
    }
}

/// The status that is read is the one that was published last.
pub proof fn status_is_the_published_one()
    ensures
        forall|hub: &mut CaptureHub, s: Option<String>, u: (), after: &CaptureHub, r: Option<String>|
            #![trigger call_ensures(publish_status, (hub, s), u), call_ensures(
                current_status,
                (after,),
                r,
            )]
            call_ensures(publish_status, (hub, s), u) && call_ensures(current_status, (after,), r)
                && after@ == (*final(hub))@ ==> {
                &&& r is Some <==> s is Some
                &&& s is Some ==> r->0@ == s->0@
            },
        forall|hub: &mut CaptureHub, r: bool| #[trigger]
            call_ensures(toggle_panel_global, (hub,), r) ==> r == (*final(hub))@.panel_open && r
                != (*hub)@.panel_open && (*final(hub))@.queue == (*hub)@.queue,
{
}

/// A stage takes the pictures that its name says.
pub proof fn stages_take_what_they_say(stage: CaptureStage)
    ensures
        forall|r: bool| #[trigger]
            call_ensures(CaptureStage::wants_pre, (stage,), r) ==> (r <==> stage is Pre
                || stage is Both),
        forall|r: bool| #[trigger]
            call_ensures(CaptureStage::wants_post, (stage,), r) ==> (r <==> stage is Post
                || stage is Both),
        forall|format: CaptureFormat, r: bool| #[trigger]
            call_ensures(CaptureFormat::supports_both_stages, (format,), r) ==> (r
                <==> format is Png),
        forall|format: CaptureFormat, r: Option<u16>| #[trigger]
            call_ensures(CaptureFormat::default_fps, (format,), r) ==> (r is None
                <==> format is Png) && (r is Some ==> r->0 == 30),
{
}

/// Stages, formats and palettes are shown by their own names.
pub proof fn choices_have_their_own_names()
    ensures
        forall|s: CaptureStage, r: &'static str| #[trigger]
            call_ensures(CaptureStage::label, (s,), r) ==> (s is Pre ==> r@ == "Pre"@) && (
            s is Post ==> r@ == "Post"@) && (s is Both ==> r@ == "Both"@),
        forall|f: CaptureFormat, r: &'static str| #[trigger]
            call_ensures(CaptureFormat::label, (f,), r) ==> (f is Png ==> r@ == "Png"@) && (
            f is Gif ==> r@ == "Gif"@) && (f is Apng ==> r@ == "Apng"@),
        forall|p: PaletteMode, r: &'static str| #[trigger]
            call_ensures(PaletteMode::label, (p,), r) ==> (p is Local ==> r@ == "Local"@) && (
            p is Global ==> r@ == "Global"@),
        forall|r: CaptureHub| #[trigger]
            call_ensures(CaptureHub::new, (), r) ==> r@.queue.len() == 0 && r@.status is None
                && !r@.panel_open,
{
}

} // verus!
