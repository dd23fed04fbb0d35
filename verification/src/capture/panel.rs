//! The capture panel: parameters, and the requests that its buttons make.

use vstd::prelude::*;

use crate::capture;
use crate::capture::{
    enqueue, CaptureFormat, CaptureHub, CaptureRequest, CaptureStage, HubView, PaletteMode,
    ParamsView, RequestView, SequenceParams,
};

verus! {

/// Widget state of the capture panel. Its buttons put requests into the hub. It is visible
/// by [`CapturePanel::open`] or by the hub's flag that the console flips, whichever changed
/// last.
pub struct CapturePanel {
    pub open: bool,
    /// The state that the panel and the hub last agreed on.
    pub agreed: bool,
    pub output_dir: String,
    pub name: String,
    pub format: CaptureFormat,
    pub stage: CaptureStage,
    pub fps: u16,
    pub scale_enabled: bool,
    pub scale_width: u32,
    pub palette_mode: PaletteMode,
}

/// A panel over plain values.
#[verifier::ext_equal]
pub struct PanelView {
    pub open: bool,
    pub agreed: bool,
    pub output_dir: Seq<char>,
    pub name: Seq<char>,
    pub format: CaptureFormat,
    pub stage: CaptureStage,
    pub fps: u16,
    pub scale_enabled: bool,
    pub scale_width: u32,
    pub palette_mode: PaletteMode,
}

impl View for CapturePanel {
    type V = PanelView;

    open spec fn view(&self) -> PanelView {
        PanelView {
            open: self.open,
            agreed: self.agreed,
            output_dir: self.output_dir@,
            name: self.name@,
            format: self.format,
            stage: self.stage,
            fps: self.fps,
            scale_enabled: self.scale_enabled,
            scale_width: self.scale_width,
            palette_mode: self.palette_mode,
        }
    }
}

/// The panel before the user touches it.
pub open spec fn default_panel() -> PanelView {
    PanelView {
        open: false,
        agreed: false,
        output_dir: "captures"@,
        name: Seq::empty(),
        format: CaptureFormat::Gif,
        stage: CaptureStage::Post,
        fps: 30,
        scale_enabled: false,
        scale_width: 720,
        palette_mode: PaletteMode::Local,
    }
}

impl Default for CapturePanel {
    fn default() -> (r: CapturePanel)
        ensures
            r@ == default_panel(),
    {
        CapturePanel {
            open: false,
            agreed: false,
            output_dir: "captures".to_owned(),
            name: String::new(),
            format: CaptureFormat::Gif,
            stage: CaptureStage::Post,
            fps: 30,
            scale_enabled: false,
            scale_width: 720,
            palette_mode: PaletteMode::Local,
        }
    }
}

impl PanelView {
    /// The name to give to a capture; none where the field is blank.
    pub open spec fn chosen_name(self) -> Option<Seq<char>> {
        if self.name.len() == 0 {
            None
        } else {
            Some(self.name)
        }
    }

    /// What the Screenshot button asks for.
    pub open spec fn screenshot(self) -> RequestView {
        RequestView::OneShot {
            stage: CaptureStage::Both,
            dir: Some(self.output_dir),
            name: self.chosen_name(),
        }
    }

    /// What the Start button asks for.
    pub open spec fn start(self) -> RequestView {
        RequestView::StartSequence {
            params: ParamsView {
                format: self.format,
                stage: self.stage,
                dir: Some(self.output_dir),
                name: self.chosen_name(),
                fps: Some(self.fps),
                scale: if self.scale_enabled {
                    Some(self.scale_width)
                } else {
                    None
                },
                palette: self.palette_mode,
            },
        }
    }

    /// The requests of a frame in which these buttons were clicked.
    pub open spec fn clicked(self, screenshot: bool, start_stop: bool, recording: bool) -> Seq<
        RequestView,
    > {
        let first = if screenshot {
            seq![self.screenshot()]
        } else {
            Seq::empty()
        };
        if start_stop {
            first.push(
                if recording {
                    RequestView::Stop
                } else {
                    self.start()
                },
            )
        } else {
            first
        }
    }
}

/// Whether the panel shows once it and the hub have compared notes.
pub open spec fn reconciled(panel: PanelView, hub: HubView) -> bool {
    if hub.panel_open != panel.agreed {
        hub.panel_open
    } else {
        panel.open
    }
}

impl CapturePanel {
    pub fn new() -> (r: CapturePanel)
        ensures
            r@ == default_panel(),
    {
        CapturePanel::default()
    }

    /// Open or close the panel, and tell the hub.
    pub fn toggle(&mut self, hub: &mut CaptureHub)
        ensures
            final(self)@ == (PanelView {
                open: !old(self)@.open,
                agreed: !old(self)@.open,
                ..old(self)@
            }),
            final(hub)@ == (HubView { panel_open: !old(self)@.open, ..old(hub)@ }),
    {
        self.set_open(hub, !self.open);
    }

    fn set_open(&mut self, hub: &mut CaptureHub, open: bool)
        ensures
            final(self)@ == (PanelView { open, agreed: open, ..old(self)@ }),
            final(hub)@ == (HubView { panel_open: open, ..old(hub)@ }),
    {
        self.open = open;
        self.agreed = open;
        hub.panel_open = open;
    }

    /// Per-frame entry point: settle whether the panel is visible. Returns `true` when it
    /// is to be drawn.
    pub fn show(&mut self, hub: &mut CaptureHub) -> (r: bool)
        ensures
            r == reconciled(old(self)@, old(hub)@),
            final(self)@ == (PanelView { open: r, agreed: r, ..old(self)@ }),
            final(hub)@ == (HubView { panel_open: r, ..old(hub)@ }),
    {
        let open = if hub.panel_open != self.agreed {
            hub.panel_open
        } else {
            self.open
        };
        self.set_open(hub, open);
        open
    }

    /// The window was drawn; `still_open` is false when the user closed it.
    pub fn window_closed(&mut self, hub: &mut CaptureHub, still_open: bool)
        ensures
            final(self)@ == (PanelView { open: still_open, agreed: still_open, ..old(self)@ }),
            final(hub)@ == (HubView { panel_open: still_open, ..old(hub)@ }),
    {
        self.set_open(hub, still_open);
    }

    fn name_or_none(&self) -> (r: Option<String>)
        ensures
            capture::opt_view(r) == self@.chosen_name(),
    {
        if self.name.as_str().is_empty() {
            None
        } else {
            Some(self.name.clone())
        }
    }

    /// The panel's buttons: Screenshot, and Start or Stop by whether a status is published.
    pub fn body(&self, hub: &mut CaptureHub, screenshot: bool, start_stop: bool)
        ensures
            final(hub)@ == (HubView {
                queue: old(hub)@.queue + self@.clicked(
                    screenshot,
                    start_stop,
                    old(hub)@.status is Some,
                ),
                ..old(hub)@
            }),
    {
        let recording = hub.status.is_some();
        let ghost before = hub@;
        if screenshot {
            enqueue(
                hub,
                CaptureRequest::OneShot {
                    stage: CaptureStage::Both,
                    dir: Some(self.output_dir.clone()),
                    name: self.name_or_none(),
                },
            );
        }
        if start_stop {
            if recording {
                enqueue(hub, CaptureRequest::Stop);
            } else {
                let scale = if self.scale_enabled {
                    Some(self.scale_width)
                } else {
                    None
                };
                enqueue(
                    hub,
                    CaptureRequest::StartSequence {
                        params: SequenceParams {
                            format: self.format,
                            stage: self.stage,
                            dir: Some(self.output_dir.clone()),
                            name: self.name_or_none(),
                            fps: Some(self.fps),
                            scale,
                            palette: self.palette_mode,
                        },
                    },
                );
            }
        }
        assert(hub@.queue =~= before.queue + self@.clicked(
            screenshot,
            start_stop,
            before.status is Some,
        ));
    }

    /// Can the stage be chosen? The single-file formats record one stage only.
    pub fn stage_enabled(&self) -> (r: bool)
        ensures
            r == (self@.format == CaptureFormat::Png),
    {
        self.format == CaptureFormat::Png
    }

    /// Can a width be chosen? PNG sequences are written at native resolution.
    pub fn scale_supported(&self) -> (r: bool)
        ensures
            r == (self@.format != CaptureFormat::Png),
    {
        match self.format {
            CaptureFormat::Gif | CaptureFormat::Apng => true,
            CaptureFormat::Png => false,
        }
    }

    /// Can the palette mode be chosen? Only GIF uses a palette.
    pub fn palette_enabled(&self) -> (r: bool)
        ensures
            r == (self@.format == CaptureFormat::Gif),
    {
        self.format == CaptureFormat::Gif
    }
}

/// The panel's status line: `Idle` without a published status.
pub fn status_label(hub: &CaptureHub) -> (r: String)
    ensures
        r@ == "Status: "@ + (match hub@.status {
            Some(s) => s,
            None => "Idle"@,
        }),
{
    let mut s = "Status: ".to_owned();
    match &hub.status {
        Some(t) => {
            s.append(t.as_str());
        },
        None => {
            s.append("Idle");
        },
    }
    s
}

/// Toggling the panel twice brings back what it and the hub showed, and the console's
/// toggle acts on the panel at its next frame.
pub proof fn panel_follows_the_last_change(panel: PanelView, hub: HubView)
    requires
        panel.open == panel.agreed,
    ensures
        reconciled(panel, hub) == hub.panel_open,
        hub.panel_open == panel.agreed ==> reconciled(
            (PanelView { open: !panel.open, ..panel }),
            hub,
        ) == !panel.open,
{
}

// ---------------------------------------------------------------------------
// Laws
// ---------------------------------------------------------------------------

/// The buttons ask for what the panel shows: a screenshot of both stages, under the name and in
/// the directory that are entered; a sequence with every setting of the panel, or the end of
/// the one that runs. What is not pressed asks for nothing.
pub proof fn buttons_ask_for_what_is_set()
    ensures
        forall|p: &CapturePanel, hub: &mut CaptureHub, screenshot: bool, start_stop: bool, u: ()|
            #[trigger]
            call_ensures(CapturePanel::body, (p, hub, screenshot, start_stop), u) ==> {
                let a = (*hub)@.queue;
                let b = (*final(hub))@.queue;
                let n = a.len() as int;
                let last = b.last();
                &&& a.is_prefix_of(b)
                &&& b.len() == n + (if screenshot {
                    1int
                } else {
                    0int
                }) + (if start_stop {
                    1int
                } else {
                    0int
                })
                &&& (*final(hub))@.status == (*hub)@.status
                &&& (*final(hub))@.panel_open == (*hub)@.panel_open
                &&& screenshot ==> b[n] is OneShot && b[n]->stage == CaptureStage::Both
                    && b[n]->OneShot_dir == Some(p@.output_dir) && is_entered(
                    b[n]->OneShot_name,
                    p@.name,
                )
                &&& start_stop && (*hub)@.status is Some ==> last is Stop
                &&& start_stop && (*hub)@.status is None ==> {
                    let q = last->StartSequence_params;
                    &&& last is StartSequence
                    &&& q.format == p@.format && q.stage == p@.stage && q.palette == p@.palette_mode
                    &&& q.dir == Some(p@.output_dir) && is_entered(q.name, p@.name)
                    &&& q.fps == Some(p@.fps)
                    &&& p@.scale_enabled ==> q.scale == Some(p@.scale_width)
                    &&& !p@.scale_enabled ==> q.scale is None
                }
            },
{
    assert forall|p: &CapturePanel, hub: &mut CaptureHub, screenshot: bool, start_stop: bool, u: ()|
        #[trigger]
        call_ensures(
            CapturePanel::body,
            (p, hub, screenshot, start_stop),
            u,
        ) implies (*hub)@.queue.is_prefix_of((*final(hub))@.queue) by {
        let a = (*hub)@.queue;
        assert(a =~= (*final(hub))@.queue.subrange(0, a.len() as int));
    }
}

/// Is the name the one that is entered, and none where the field is blank?
pub open spec fn is_entered(name: Option<Seq<char>>, field: Seq<char>) -> bool {
    &&& name is None <==> field.len() == 0
    &&& name is Some ==> name == Some(field)
}

/// The panel shows what was last asked for, by itself or by the hub: after a toggle it shows
/// the opposite of what it did, after the hub's flag was flipped it follows the flag, and when
/// its window is closed it is, and nothing brings it back by itself.
pub proof fn panel_and_hub_agree()
    ensures
        forall|p: &mut CapturePanel, hub: &mut CaptureHub, u: ()| #[trigger]
            call_ensures(CapturePanel::toggle, (p, hub), u) ==> (*final(p))@.open == !(*p)@.open
                && (*final(hub))@.panel_open == (*final(p))@.open && (*final(p))@.agreed
                == (*final(p))@.open && (*final(hub))@.queue == (*hub)@.queue,
        forall|p: &mut CapturePanel, hub: &mut CaptureHub, r: bool| #[trigger]
            call_ensures(CapturePanel::show, (p, hub), r) ==> {
                &&& (*final(p))@.open == r && (*final(hub))@.panel_open == r && (*final(p))@.agreed
                    == r
                &&& (*hub)@.panel_open != (*p)@.agreed ==> r == (*hub)@.panel_open
                &&& (*hub)@.panel_open == (*p)@.agreed ==> r == (*p)@.open
                &&& (*final(hub))@.queue == (*hub)@.queue
            },
        forall|p: &mut CapturePanel, hub: &mut CaptureHub, still_open: bool, u: ()| #[trigger]
            call_ensures(CapturePanel::window_closed, (p, hub, still_open), u) ==> (
            *final(p))@.open == still_open && (*final(hub))@.panel_open == still_open
                && (*final(p))@.agreed == still_open,
{
}

/// The panel offers what the format can do.
pub proof fn panel_offers_what_the_format_can()
    ensures
        forall|p: &CapturePanel, r: bool| #[trigger]
            call_ensures(CapturePanel::stage_enabled, (p,), r) ==> (r <==> p@.format is Png),
        forall|p: &CapturePanel, r: bool| #[trigger]
            call_ensures(CapturePanel::scale_supported, (p,), r) ==> (r <==> p@.format is Gif
                || p@.format is Apng),
        forall|p: &CapturePanel, r: bool| #[trigger]
            call_ensures(CapturePanel::palette_enabled, (p,), r) ==> (r <==> p@.format is Gif),
{
}

/// The panel shows the status of a capture, or that there is none.
pub proof fn panel_shows_the_status()
    ensures
        forall|hub: &CaptureHub, r: String| #[trigger]
            call_ensures(status_label, (hub,), r) ==> {
                &&& hub@.status is Some ==> r@ == "Status: "@ + hub@.status->0
                &&& hub@.status is None ==> r@ == "Status: "@ + "Idle"@
            },
        forall|r: CapturePanel| #[trigger]
            call_ensures(CapturePanel::new, (), r) ==> !r@.open && r@.output_dir == "captures"@
                && r@.name.len() == 0 && r@.format is Gif && r@.stage is Post && r@.fps == 30
                && !r@.scale_enabled && r@.palette_mode is Local,
{
}

} // verus!
