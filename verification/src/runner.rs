//! The decisions of the event-loop runner.
//!
//! The host owns the window, the device, the input routing and the app; it performs what
//! is decided here and reports back what came of it. Times are nanoseconds on the host's
//! monotonic clock.

use vstd::prelude::*;

use crate::frame_pacing::{take_pending_vsync, target_period, Pacing, PresentMode};
use crate::text;
use crate::text::number;

verus! {

// ---------------------------------------------------------------------------
// Configuration
// ---------------------------------------------------------------------------

/// The DOM element IDs the page uses to host the demo in a browser.
pub struct WasmConfig {
    /// Container element. Its `data-mode` attribute decides between click-to-start and
    /// launch on page load.
    pub host_id: String,
    /// Launch button. A click hands the canvas to a worker.
    pub button_id: String,
    /// Canvas the worker renders into.
    pub canvas_id: String,
}

impl Default for WasmConfig {
    fn default() -> (r: WasmConfig)
        ensures
            r.host_id@ == "rye-canvas-host"@,
            r.button_id@ == "rye-launch"@,
            r.canvas_id@ == "rye-canvas"@,
    {
        WasmConfig {
            host_id: "rye-canvas-host".to_owned(),
            button_id: "rye-launch".to_owned(),
            canvas_id: "rye-canvas".to_owned(),
        }
    }
}

/// Runtime knobs.
pub struct RunConfig {
    /// Title of the window until the app names one. The window starts hidden and is shown
    /// once setup is done.
    pub title: String,
    pub fixed_hz: u32,
    pub max_ticks_per_frame: usize,
    /// Log filter; `None` keeps whatever is already configured.
    pub log_filter: Option<String>,
    /// Exit the event loop on `Esc`.
    pub esc_exits: bool,
    /// Bail out after this many consecutive render errors; `0` disables the budget.
    pub render_error_budget: u32,
    /// Samples requested for the render target; `1` disables multisampling.
    pub msaa_samples: u32,
    pub wasm: WasmConfig,
}

impl Default for RunConfig {
    fn default() -> (r: RunConfig)
        ensures
            r.title@ == "rye app"@,
            r.fixed_hz == 60,
            r.max_ticks_per_frame == 4,
            r.log_filter is None,
            r.esc_exits,
            r.render_error_budget == 8,
            r.msaa_samples == 1,
            r.wasm.host_id@ == "rye-canvas-host"@,
            r.wasm.button_id@ == "rye-launch"@,
            r.wasm.canvas_id@ == "rye-canvas"@,
    {
        RunConfig {
            title: "rye app".to_owned(),
            fixed_hz: 60,
            max_ticks_per_frame: 4,
            log_filter: None,
            esc_exits: true,
            render_error_budget: 8,
            msaa_samples: 1,
            wasm: WasmConfig::default(),
        }
    }
}

/// How a demo is started.
#[derive(Copy, Clone, Debug, PartialEq, Eq, Structural)]
pub enum Entry {
    /// Drive the app on a worker.
    Worker,
    /// Wire the launch button to spawn a worker.
    LaunchOnClick,
    /// Drive the app in a window.
    Windowed,
}

/// Pick the way to start: inside a worker the worker loop, on a page in manual mode the
/// launch button, else a window.
pub fn entry(in_worker: bool, manual_mode: bool) -> (r: Entry)
    ensures
        r == (if in_worker {
            Entry::Worker
        } else if manual_mode {
            Entry::LaunchOnClick
        } else {
            Entry::Windowed
        }),
{
    if in_worker {
        Entry::Worker
    } else if manual_mode {
        Entry::LaunchOnClick
    } else {
        Entry::Windowed
    }
}

// ---------------------------------------------------------------------------
// State
// ---------------------------------------------------------------------------

/// The error that ended the event loop. `cause` is what the host reported, if it did.
#[derive(Debug)]
pub struct DeferredError {
    pub message: String,
    pub cause: Option<String>,
}

/// The runner's own state, between two events.
pub struct Runner {
    pub config: RunConfig,
    /// Is there a window?
    pub has_window: bool,
    /// Are the device, the UI and the app set up?
    pub ready: bool,
    pub minimized: bool,
    pub last_fps_update: u64,
    pub frame_count: u32,
    /// When the app was last updated; `None` before the first frame.
    pub last_update_at: Option<u64>,
    pub tick_index: u64,
    /// Ideal start of the previous redraw; `None` until there was one.
    pub last_redraw_at: Option<u64>,
    /// Consecutive render failures since the last good frame.
    pub render_error_streak: u32,
    pub deferred_error: Option<DeferredError>,
}

impl Runner {
    pub fn new(config: RunConfig, now: u64) -> (r: Runner)
        ensures
            r == (Runner {
                config,
                has_window: false,
                ready: false,
                minimized: false,
                last_fps_update: now,
                frame_count: 0,
                last_update_at: None,
                tick_index: 0,
                last_redraw_at: None,
                render_error_streak: 0,
                deferred_error: None,
            }),
    {
        Runner {
            config,
            has_window: false,
            ready: false,
            minimized: false,
            last_fps_update: now,
            frame_count: 0,
            last_update_at: None,
            tick_index: 0,
            last_redraw_at: None,
            render_error_streak: 0,
            deferred_error: None,
        }
    }

    /// The error that the runner deferred, if it did.
    pub fn finish(self) -> (r: Result<(), DeferredError>)
        ensures
            r == (match self.deferred_error {
                Some(e) => Err(e),
                None => Ok(()),
            }),
    {
        match self.deferred_error {
            Some(e) => Err(e),
            None => Ok(()),
        }
    }

    /// Take up a finished setup. The window can be shown and the first redraw requested.
    pub fn install_init(&mut self, now: u64)
        ensures
            *final(self) == (Runner {
                has_window: true,
                ready: true,
                minimized: false,
                last_fps_update: now,
                ..*old(self)
            }),
    {
        self.has_window = true;
        self.ready = true;
        self.minimized = false;
        self.last_fps_update = now;
    }

    /// End the loop with an error of the runner's own or the host's.
    pub fn fail(&mut self, message: &str)
        ensures
            final(self).deferred_error is Some,
            final(self).deferred_error->0.message@ == message@,
            final(self).deferred_error->0.cause is None,
            *final(self) == (Runner {
                deferred_error: final(self).deferred_error,
                ..*old(self)
            }),
    {
        self.deferred_error = Some(DeferredError { message: message.to_owned(), cause: None });
    }

    /// Take up what a setup that ran beside the event loop came to. `result` is `None`
    /// while it still runs. Returns whether the host has to exit; `None` if nothing came.
    pub fn poll_pending_init(&mut self, result: Option<Result<(), String>>, now: u64) -> (r: Option<
        bool,
    >)
        ensures
            r is None <==> result is None,
            match result {
                None => *final(self) == *old(self),
                Some(outcome) => {
                    let fails = !old(self).has_window || outcome is Err;
                    &&& r == Some(fails)
                    &&& !fails ==> *final(self) == (Runner {
                        has_window: true,
                        ready: true,
                        minimized: false,
                        last_fps_update: now,
                        ..*old(self)
                    })
                    &&& fails ==> final(self).deferred_error is Some
                        && final(self).deferred_error->0.cause is None
                        && final(self).deferred_error->0.message@ == (if !old(self).has_window {
                        "wasm init future resolved with no window present"@
                    } else {
                        outcome->Err_0@
                    }) && *final(self) == (Runner {
                        deferred_error: final(self).deferred_error,
                        ..*old(self)
                    })
                },
            },
    {
        match result {
            None => None,
            Some(outcome) => {
                if !self.has_window {
                    self.fail("wasm init future resolved with no window present");
                    return Some(true);
                }
                match outcome {
                    Ok(_) => {
                        self.install_init(now);
                        Some(false)
                    },
                    Err(e) => {
                        self.fail(e.as_str());
                        Some(true)
                    },
                }
            },
        }
    }
}

// ---------------------------------------------------------------------------
// Window events
// ---------------------------------------------------------------------------

/// A window event, as far as the runner tells them apart.
#[derive(Copy, Clone, Debug, PartialEq, Eq, Structural)]
pub enum Event {
    CloseRequested,
    Key { escape: bool, pressed: bool },
    CursorMoved,
    CursorLeft,
    Focused(bool),
    MouseInput,
    MouseWheel,
    AxisMotion,
    Resized { width: u32, height: u32 },
    RedrawRequested,
    Other,
}

/// What becomes of the input state.
#[derive(Copy, Clone, Debug, PartialEq, Eq, Structural)]
pub enum Route {
    Nothing,
    Key,
    CursorMoved,
    /// Forget where the cursor was.
    InvalidateCursor,
    /// Forget where the cursor was, and release all buttons.
    InvalidateAndRelease,
    MouseInput,
    MouseWheel,
}

/// A size in pixels.
#[derive(Copy, Clone, Debug, PartialEq, Eq, Structural)]
pub struct Size {
    pub width: u32,
    pub height: u32,
}

/// What happens with an event once the UI has seen it.
#[derive(Copy, Clone, Debug, PartialEq, Eq, Structural)]
pub enum Reaction {
    /// No window yet: the event is dropped, and not shown to the UI either.
    Drop,
    /// Leave the event loop.
    Exit,
    /// Route it; resize the device if asked; then redraw, or hand the event to the app.
    Handle { route: Route, resize: Option<Size>, redraw: bool, notify: bool },
}

impl Event {
    /// Events too frequent to log.
    pub open spec fn spec_is_noise(self) -> bool {
        self is CursorMoved || self is RedrawRequested || self is AxisMotion
    }

    pub fn is_noise(self) -> (r: bool)
        ensures
            r == self.spec_is_noise(),
    {
        matches!(self, Event::CursorMoved | Event::RedrawRequested | Event::AxisMotion)
    }

    pub open spec fn spec_route(self) -> Route {
        match self {
            Event::Key { .. } => Route::Key,
            Event::CursorMoved => Route::CursorMoved,
            Event::CursorLeft => Route::InvalidateCursor,
            Event::Focused(false) => Route::InvalidateAndRelease,
            Event::MouseInput => Route::MouseInput,
            Event::MouseWheel => Route::MouseWheel,
            _ => Route::Nothing,
        }
    }

    fn route(self) -> (r: Route)
        ensures
            r == self.spec_route(),
    {
        match self {
            Event::Key { .. } => Route::Key,
            Event::CursorMoved => Route::CursorMoved,
            Event::CursorLeft => Route::InvalidateCursor,
            Event::Focused(f) => if f {
                Route::Nothing
            } else {
                Route::InvalidateAndRelease
            },
            Event::MouseInput => Route::MouseInput,
            Event::MouseWheel => Route::MouseWheel,
            _ => Route::Nothing,
        }
    }
}

impl Runner {
    /// Does this event end the app? A close request does; so does `Esc`, where it is bound
    /// to that and no text field of the UI has the keyboard.
    pub open spec fn exits_on(&self, ev: Event, ui_has_focus: bool) -> bool {
        ev is CloseRequested || (self.config.esc_exits && ev == (Event::Key {
            escape: true,
            pressed: true,
        }) && !ui_has_focus)
    }

    /// What is done with an event.
    pub open spec fn reaction(&self, ev: Event, ui_has_focus: bool) -> Reaction {
        if !self.has_window {
            Reaction::Drop
        } else if self.exits_on(ev, ui_has_focus) {
            Reaction::Exit
        } else {
            Reaction::Handle {
                route: ev.spec_route(),
                resize: match ev {
                    Event::Resized { width, height } if width != 0 && height != 0
                        && self.ready => Some(Size { width, height }),
                    _ => None,
                },
                redraw: ev is RedrawRequested,
                notify: ev !is RedrawRequested && self.ready,
            }
        }
    }

    /// Is an event logged?
    pub open spec fn spec_logs(&self, ev: Event, log_events: bool) -> bool {
        self.has_window && log_events && !ev.spec_is_noise()
    }

    /// Should the event be logged? Everything is, while the event log is on, but for the
    /// per-frame noise.
    pub fn logs(&self, ev: Event, log_events: bool) -> (r: bool)
        ensures
            r == self.spec_logs(ev, log_events),
    {
        self.has_window && log_events && !ev.is_noise()
    }

    /// Decide on an event. The UI has seen it already, so that it can claim focus before
    /// `Esc` is looked at.
    pub fn window_event(&mut self, ev: Event, ui_has_focus: bool) -> (r: Reaction)
        ensures
            r == old(self).reaction(ev, ui_has_focus),
            *final(self) == (Runner {
                minimized: match ev {
                    Event::Resized { width, height } if r is Handle => width == 0 || height == 0,
                    _ => old(self).minimized,
                },
                ..*old(self)
            }),
    {
        if !self.has_window {
            return Reaction::Drop;
        }
        match ev {
            Event::CloseRequested => {
                return Reaction::Exit;
            },
            Event::Key { escape, pressed } => {
                if self.config.esc_exits && pressed && escape && !ui_has_focus {
                    return Reaction::Exit;
                }
            },
            _ => {},
        }
        let mut resize: Option<Size> = None;
        if let Event::Resized { width, height } = ev {
            self.minimized = width == 0 || height == 0;
            if !self.minimized && self.ready {
                resize = Some(Size { width, height });
            }
        }
        let redraw = matches!(ev, Event::RedrawRequested);
        Reaction::Handle { route: ev.route(), resize, redraw, notify: !redraw && self.ready }
    }
}

// ---------------------------------------------------------------------------
// Redraw: before the frame
// ---------------------------------------------------------------------------

/// The mode that a vsync request leads to: `Fifo` for on; for off the best other mode on
/// offer, `Mailbox` before `Immediate`, else the one in use.
pub open spec fn present_mode_for(
    want_on: bool,
    supported: Seq<PresentMode>,
    current: PresentMode,
) -> PresentMode {
    if want_on {
        PresentMode::Fifo
    } else if supported.contains(PresentMode::Mailbox) {
        PresentMode::Mailbox
    } else if supported.contains(PresentMode::Immediate) {
        PresentMode::Immediate
    } else {
        current
    }
}

fn offers(supported: &Vec<PresentMode>, mode: PresentMode) -> (r: bool)
    ensures
        r == supported@.contains(mode),
{
    let mut i: usize = 0;
    while i < supported.len()
        invariant
            i <= supported.len(),
            forall|j: int| 0 <= j < i ==> supported@[j] != mode,
        decreases supported.len() - i,
    {
        if supported[i] == mode {
            return true;
        }
        i += 1;
    }
    false
}

/// Pick the present mode for a vsync request.
pub fn choose_present_mode(
    want_on: bool,
    supported: &Vec<PresentMode>,
    current: PresentMode,
) -> (r: PresentMode)
    ensures
        r == present_mode_for(want_on, supported@, current),
{
    if want_on {
        PresentMode::Fifo
    } else if offers(supported, PresentMode::Mailbox) {
        PresentMode::Mailbox
    } else if offers(supported, PresentMode::Immediate) {
        PresentMode::Immediate
    } else {
        current
    }
}

/// Whether and when a frame starts.
#[derive(Copy, Clone, Debug, PartialEq, Eq, Structural)]
pub enum Pace {
    /// Now. The next deadline counts from `anchor`.
    Go { anchor: u64 },
    /// After waiting until the deadline, from which the next one counts.
    Wait { deadline: u64 },
    /// Not on this callback; request another. For hosts that cannot block.
    Later,
}

/// The frame-rate cap. A deadline counts from the previous frame's ideal start, so that the
/// cadence stays locked to the period though single frames wake late. A frame past its
/// deadline starts now and resets the count instead of falling further behind.
pub open spec fn paced(now: u64, period: Option<u64>, last: Option<u64>, blocking: bool) -> Pace {
    match (period, last) {
        (Some(p), Some(l)) if now < l + p => if blocking {
            Pace::Wait { deadline: (l + p) as u64 }
        } else {
            Pace::Later
        },
        _ => Pace::Go { anchor: now },
    }
}

/// Where the next deadline counts from.
pub open spec fn anchored(pace: Pace, last: Option<u64>) -> Option<u64> {
    match pace {
        Pace::Go { anchor } => Some(anchor),
        Pace::Wait { deadline } => Some(deadline),
        Pace::Later => last,
    }
}

/// What to do before a frame.
#[derive(Copy, Clone, Debug, PartialEq, Eq, Structural)]
pub struct RedrawStart {
    /// Switch the surface to this mode first.
    pub present_mode: Option<PresentMode>,
    /// `None`: nothing is drawn, and no redraw requested.
    pub pace: Option<Pace>,
}

impl Runner {
    /// May a deadline be reckoned from the previous frame?
    pub open spec fn deadline_fits(&self, pacing: Pacing) -> bool {
        self.last_redraw_at is Some ==> self.last_redraw_at->0 + pacing.target_period_ns
            <= u64::MAX
    }

    /// Start a redraw. A minimized window draws nothing and leaves requests pending. Else
    /// a pending vsync request is taken up (before the device is there it is lost), and the
    /// frame-rate cap decides when the frame starts.
    pub fn begin_redraw(
        &mut self,
        pacing: &mut Pacing,
        supported: &Vec<PresentMode>,
        current: PresentMode,
        now: u64,
        blocking: bool,
    ) -> (r: RedrawStart)
        requires
            old(self).deadline_fits(*old(pacing)),
        ensures
            old(self).minimized ==> r == (RedrawStart { present_mode: None, pace: None })
                && *final(pacing) == *old(pacing) && *final(self) == *old(self),
            !old(self).minimized ==> {
                let period = if old(pacing).target_period_ns == 0 {
                    None
                } else {
                    Some(old(pacing).target_period_ns)
                };
                let pace = paced(now, period, old(self).last_redraw_at, blocking);
                &&& *final(pacing) == (Pacing { pending_vsync: None, ..*old(pacing) })
                &&& r.present_mode == (match old(pacing).pending_vsync {
                    Some(on) if old(self).ready => Some(
                        present_mode_for(on, supported@, current),
                    ),
                    _ => None,
                })
                &&& r.pace == (if old(self).ready {
                    Some(pace)
                } else {
                    None
                })
                &&& *final(self) == (Runner {
                    last_redraw_at: if old(self).ready {
                        anchored(pace, old(self).last_redraw_at)
                    } else {
                        old(self).last_redraw_at
                    },
                    ..*old(self)
                })
            },
    {
        if self.minimized {
            return RedrawStart { present_mode: None, pace: None };
        }
        let mut present_mode: Option<PresentMode> = None;
        if let Some(want_on) = take_pending_vsync(pacing) {
            if self.ready {
                present_mode = Some(choose_present_mode(want_on, supported, current));
            }
        }
        if !self.ready {
            return RedrawStart { present_mode, pace: None };
        }
        let mut pace = Pace::Go { anchor: now };
        if let Some(period) = target_period(pacing) {
            if let Some(last) = self.last_redraw_at {
                let deadline: u64 = last + period;
                if now < deadline {
                    pace = if blocking {
                        Pace::Wait { deadline }
                    } else {
                        Pace::Later
                    };
                }
            }
        }
        match pace {
            Pace::Go { anchor } => {
                self.last_redraw_at = Some(anchor);
            },
            Pace::Wait { deadline } => {
                self.last_redraw_at = Some(deadline);
            },
            Pace::Later => {},
        }
        RedrawStart { present_mode, pace: Some(pace) }
    }
}

// ---------------------------------------------------------------------------
// Redraw: simulation, update, title
// ---------------------------------------------------------------------------

/// The smaller of the two.
pub open spec fn smaller(a: nat, b: nat) -> nat {
    if a <= b {
        a
    } else {
        b
    }
}

/// The name of the tick after `tick`; names start over after the last.
pub open spec fn next_tick(tick: u64) -> u64 {
    if tick == u64::MAX {
        0
    } else {
        (tick + 1) as u64
    }
}

/// The name of the tick `n` after `tick`.
pub open spec fn tick_after(tick: u64, n: nat) -> u64
    decreases n,
{
    if n == 0 {
        tick
    } else {
        next_tick(tick_after(tick, (n - 1) as nat))
    }
}

/// Until names start over, a tick's name counts the ticks before it.
pub proof fn ticks_count_up(first: u64, n: nat)
    requires
        first + n <= u64::MAX,
    ensures
        tick_after(first, n) == first + n,
    decreases n,
{
    if n > 0 {
        ticks_count_up(first, (n - 1) as nat);
    }
}

/// The names of `n` ticks from `first` on.
pub open spec fn tick_names(first: u64, n: nat) -> Seq<u64> {
    Seq::new(n, |i: int| tick_after(first, i as nat))
}

/// Name `n` ticks from `first` on. Returns the names, and that of the tick behind them.
pub fn name_ticks(first: u64, n: usize) -> (r: (Vec<u64>, u64))
    ensures
        r.0@ == tick_names(first, n as nat),
        r.1 == tick_after(first, n as nat),
{
    let mut out: Vec<u64> = Vec::new();
    let mut tick: u64 = first;
    let mut i: usize = 0;
    assert(out@ =~= tick_names(first, 0));
    while i < n
        invariant
            i <= n,
            out@ == tick_names(first, i as nat),
            tick == tick_after(first, i as nat),
        decreases n - i,
    {
        out.push(tick);
        tick = tick.wrapping_add(1);
        i += 1;
        assert(out@ =~= tick_names(first, i as nat));
    }
    (out, tick)
}

/// The time from `last` to `now`, if there is a `last`; zero if the clock went back.
pub open spec fn elapsed_since(last: Option<u64>, now: u64) -> Option<u64> {
    match last {
        Some(prev) => Some(
            if now >= prev {
                (now - prev) as u64
            } else {
                0
            },
        ),
        None => None,
    }
}

pub fn time_since(last: Option<u64>, now: u64) -> (r: Option<u64>)
    ensures
        r == elapsed_since(last, now),
{
    match last {
        Some(prev) => Some(
            if now >= prev {
                now - prev
            } else {
                0
            },
        ),
        None => None,
    }
}

/// The app's title with the capture status behind it, while there is one.
pub open spec fn titled(title: Seq<char>, status: Option<Seq<char>>) -> Seq<char> {
    match status {
        Some(s) => title + " ["@ + s + "]"@,
        None => title,
    }
}

/// The window title.
pub fn title_text(title: &str, status: Option<&str>) -> (r: String)
    ensures
        r@ == titled(
            title@,
            match status {
                Some(s) => Some(s@),
                None => None,
            },
        ),
{
    let mut out = title.to_owned();
    if let Some(s) = status {
        out.append(" [");
        out.append(s);
        out.append("]");
    }
    out
}

/// How many frames there were in how many nanoseconds.
#[derive(Copy, Clone, Debug, PartialEq, Eq, Structural)]
pub struct FpsReading {
    pub frames: u32,
    pub elapsed: u64,
}

impl Runner {
    /// The ticks to simulate this frame, of the `due` that the clock says: no more than the
    /// limit. The rest is dropped, so that a stall does not snowball. Returns their names,
    /// in order.
    pub fn sim_ticks(&mut self, due: usize) -> (r: Vec<u64>)
        ensures
            r@ == tick_names(
                old(self).tick_index,
                smaller(due as nat, old(self).config.max_ticks_per_frame as nat),
            ),
            *final(self) == (Runner {
                tick_index: tick_after(old(self).tick_index, r@.len()),
                ..*old(self)
            }),
    {
        let n: usize = if due <= self.config.max_ticks_per_frame {
            due
        } else {
            self.config.max_ticks_per_frame
        };
        let (names, next) = name_ticks(self.tick_index, n);
        self.tick_index = next;
        names
    }

    /// The time since the previous update; `None` on the first frame, for which the
    /// fixed-timestep interval stands in.
    pub fn update_elapsed(&mut self, now: u64) -> (r: Option<u64>)
        ensures
            r == elapsed_since(old(self).last_update_at, now),
            *final(self) == (Runner { last_update_at: Some(now), ..*old(self) }),
    {
        let r = time_since(self.last_update_at, now);
        self.last_update_at = Some(now);
        r
    }

    /// Count the frame. Once a second has passed since the last time, the count is handed
    /// out for the readout and the title, and starts over.
    pub fn count_frame(&mut self, now: u64) -> (r: Option<FpsReading>)
        requires
            old(self).frame_count < u32::MAX,
        ensures
            ({
                let elapsed = elapsed_since(Some(old(self).last_fps_update), now)->0;
                let frames = (old(self).frame_count + 1) as u32;
                if elapsed >= 1_000_000_000 {
                    &&& r == Some(FpsReading { frames, elapsed })
                    &&& *final(self) == (Runner {
                        frame_count: 0,
                        last_fps_update: now,
                        ..*old(self)
                    })
                } else {
                    &&& r is None
                    &&& *final(self) == (Runner { frame_count: frames, ..*old(self) })
                }
            }),
    {
        self.frame_count += 1;
        let elapsed: u64 = if now >= self.last_fps_update {
            now - self.last_fps_update
        } else {
            0
        };
        if elapsed >= 1_000_000_000 {
            let frames: u32 = self.frame_count;
            self.frame_count = 0;
            self.last_fps_update = now;
            Some(FpsReading { frames, elapsed })
        } else {
            None
        }
    }
}

// ---------------------------------------------------------------------------
// Redraw: the frame itself
// ---------------------------------------------------------------------------

/// Where the scene and the UI are drawn.
#[derive(Copy, Clone, Debug, PartialEq, Eq, Structural)]
pub enum Target {
    /// The multisampled attachment; resolved into the surface by the UI pass.
    Msaa,
    /// An offscreen texture; composited into the surface at the end of the frame.
    Scene,
    /// The surface.
    Surface,
}

/// Pick the render target: the multisampled view if there is one, else the offscreen one,
/// else the surface.
pub fn render_target(has_msaa_view: bool, has_scene_view: bool) -> (r: Target)
    ensures
        r == (if has_msaa_view {
            Target::Msaa
        } else if has_scene_view {
            Target::Scene
        } else {
            Target::Surface
        }),
{
    if has_msaa_view {
        Target::Msaa
    } else if has_scene_view {
        Target::Scene
    } else {
        Target::Surface
    }
}

/// One step of drawing a frame.
#[derive(Copy, Clone, Debug, PartialEq, Eq, Structural)]
pub enum FrameOp {
    /// Submit the start timestamp on its own, so that it lands before the frame's work.
    TimerStart,
    /// Open the frame encoder and let the app record into it.
    Record,
    /// Submit the frame encoder and open a fresh one.
    Split,
    /// Read the surface back and hand it to the capture, as the stage before the UI.
    CapturePre,
    /// Say that the stage before the UI was skipped, because multisampling is on.
    WarnPreSkipped,
    /// Draw the UI into the frame encoder; resolve multisampling into the surface or not.
    Paint { resolve: bool },
    /// Read the surface back and hand it to the capture, as the stage behind the UI.
    CapturePost,
    /// Note the capture interval as done.
    AdvanceCapture,
    /// Publish the capture status.
    PublishStatus,
    /// Composite the offscreen texture into the surface.
    Composite,
    /// Submit the frame encoder.
    Submit,
    /// Submit the end timestamp on its own.
    TimerEnd,
    Present,
    /// Advance the timer and collect what it measured.
    TimerTick,
}

/// The steps up to the UI.
pub open spec fn scene_ops(timer: bool, tap_pre: bool, multisampled: bool) -> Seq<FrameOp> {
    (if timer {
        seq![FrameOp::TimerStart]
    } else {
        seq![]
    }) + seq![FrameOp::Record] + (if tap_pre {
        if multisampled {
            seq![FrameOp::WarnPreSkipped]
        } else {
            seq![FrameOp::Split, FrameOp::CapturePre]
        }
    } else {
        seq![]
    }) + seq![FrameOp::Paint { resolve: multisampled }]
}

/// The steps behind the UI.
pub open spec fn finish_ops(timer: bool, due: bool, tap_post: bool, composite: bool) -> Seq<
    FrameOp,
> {
    (if tap_post {
        seq![FrameOp::Split, FrameOp::CapturePost]
    } else {
        seq![]
    }) + (if due {
        seq![FrameOp::AdvanceCapture]
    } else {
        seq![]
    }) + seq![FrameOp::PublishStatus] + (if composite {
        seq![FrameOp::Composite]
    } else {
        seq![]
    }) + (if timer {
        seq![FrameOp::Submit, FrameOp::TimerEnd, FrameOp::Present, FrameOp::TimerTick]
    } else {
        seq![FrameOp::Submit, FrameOp::Present]
    })
}

/// Lay out the frame up to the UI. `capture_due` and `wants_pre` are what the capture
/// says; the multisampled attachment cannot be read back, so its tap before the UI is
/// skipped with a warning.
pub fn plan_scene(timer: bool, capture_due: bool, wants_pre: bool, samples: u32) -> (r: Vec<
    FrameOp,
>)
    ensures
        r@ == scene_ops(timer, capture_due && wants_pre, samples > 1),
{
    let mut out: Vec<FrameOp> = Vec::new();
    if timer {
        out.push(FrameOp::TimerStart);
    }
    out.push(FrameOp::Record);
    if capture_due && wants_pre {
        if samples > 1 {
            out.push(FrameOp::WarnPreSkipped);
        } else {
            out.push(FrameOp::Split);
            out.push(FrameOp::CapturePre);
        }
    }
    out.push(FrameOp::Paint { resolve: samples > 1 });
    assert(out@ =~= scene_ops(timer, capture_due && wants_pre, samples > 1));
    out
}

/// Lay out the rest of the frame. `wants_post` is what the capture says once the tap
/// before the UI is done.
pub fn plan_finish(timer: bool, capture_due: bool, wants_post: bool, has_scene_view: bool) -> (r:
    Vec<FrameOp>)
    ensures
        r@ == finish_ops(timer, capture_due, capture_due && wants_post, has_scene_view),
{
    let mut out: Vec<FrameOp> = Vec::new();
    if capture_due && wants_post {
        out.push(FrameOp::Split);
        out.push(FrameOp::CapturePost);
    }
    if capture_due {
        out.push(FrameOp::AdvanceCapture);
    }
    out.push(FrameOp::PublishStatus);
    if has_scene_view {
        out.push(FrameOp::Composite);
    }
    out.push(FrameOp::Submit);
    if timer {
        out.push(FrameOp::TimerEnd);
    }
    out.push(FrameOp::Present);
    if timer {
        out.push(FrameOp::TimerTick);
    }
    assert(out@ =~= finish_ops(timer, capture_due, capture_due && wants_post, has_scene_view));
    out
}

/// Why there is no surface to draw on.
#[derive(Copy, Clone, Debug, PartialEq, Eq, Structural)]
pub enum SurfaceFault {
    Lost,
    Outdated,
    Timeout,
    OutOfMemory,
    Other,
}

/// What follows a frame, drawn or not.
#[derive(Copy, Clone, Debug, PartialEq, Eq, Structural)]
pub enum AfterFrame {
    /// Request another redraw.
    Redraw,
    /// Resize the device to the size it has, then request another redraw.
    ResizeAndRedraw,
    /// Log the fault, then request another redraw.
    LogAndRedraw,
    /// Leave the event loop.
    Exit,
}

/// The message of a spent error budget.
pub open spec fn budget_message(budget: nat) -> Seq<char> {
    "App::render failed "@ + text::decimal(budget) + " consecutive frames; aborting"@
}

/// The streak after one more failure; it stops at the largest number.
pub open spec fn longer_streak(streak: u32) -> u32 {
    if streak == u32::MAX {
        streak
    } else {
        (streak + 1) as u32
    }
}

impl Runner {
    /// Has the error budget been spent with this streak?
    pub open spec fn spent(&self, streak: u32) -> bool {
        self.config.render_error_budget > 0 && streak >= self.config.render_error_budget
    }

    /// A frame was presented; `error` is what the app's recording failed with, if it did. A
    /// good frame resets the streak. A failure beyond the budget ends the loop with the
    /// last error; any other frame asks for the next one.
    pub fn frame_presented(&mut self, error: Option<&str>) -> (r: AfterFrame)
        ensures
            match error {
                None => r == AfterFrame::Redraw && *final(self) == (Runner {
                    render_error_streak: 0,
                    ..*old(self)
                }),
                Some(e) => {
                    let streak = longer_streak(old(self).render_error_streak);
                    let left = final(self).deferred_error;
                    if old(self).spent(streak) {
                        &&& r == AfterFrame::Exit
                        &&& left is Some
                        &&& left->0.message@ == budget_message(
                            old(self).config.render_error_budget as nat,
                        )
                        &&& left->0.cause is Some
                        &&& left->0.cause->0@ == e@
                        &&& *final(self) == (Runner {
                            render_error_streak: streak,
                            deferred_error: left,
                            ..*old(self)
                        })
                    } else {
                        r == AfterFrame::Redraw && *final(self) == (Runner {
                            render_error_streak: streak,
                            ..*old(self)
                        })
                    }
                },
            },
    {
        match error {
            None => {
                self.render_error_streak = 0;
                AfterFrame::Redraw
            },
            Some(e) => {
                if self.render_error_streak < u32::MAX {
                    self.render_error_streak += 1;
                }
                let budget: u32 = self.config.render_error_budget;
                if budget > 0 && self.render_error_streak >= budget {
                    let mut message = "App::render failed ".to_owned();
                    message.append(number(budget as u64).as_str());
                    message.append(" consecutive frames; aborting");
                    self.deferred_error = Some(
                        DeferredError { message, cause: Some(e.to_owned()) },
                    );
                    return AfterFrame::Exit;
                }
                AfterFrame::Redraw
            },
        }
    }

    /// There was no surface to draw on. A lost or outdated one is configured anew; running
    /// out of memory ends the loop.
    pub fn frame_failed(&mut self, fault: SurfaceFault) -> (r: AfterFrame)
        ensures
            r == (match fault {
                SurfaceFault::Lost | SurfaceFault::Outdated => AfterFrame::ResizeAndRedraw,
                SurfaceFault::Timeout => AfterFrame::Redraw,
                SurfaceFault::OutOfMemory => AfterFrame::Exit,
                SurfaceFault::Other => AfterFrame::LogAndRedraw,
            }),
            fault !is OutOfMemory ==> *final(self) == *old(self),
            fault is OutOfMemory ==> {
                let left = final(self).deferred_error;
                &&& left is Some
                &&& left->0.message@ == "wgpu surface out of memory"@
                &&& left->0.cause is None
                &&& *final(self) == (Runner { deferred_error: left, ..*old(self) })
            },
    {
        match fault {
            SurfaceFault::Lost | SurfaceFault::Outdated => AfterFrame::ResizeAndRedraw,
            SurfaceFault::Timeout => AfterFrame::Redraw,
            SurfaceFault::OutOfMemory => {
                self.fail("wgpu surface out of memory");
                AfterFrame::Exit
            },
            SurfaceFault::Other => AfterFrame::LogAndRedraw,
        }
    }
}

// ---------------------------------------------------------------------------
// Laws
// ---------------------------------------------------------------------------

/// While the rate is capped, frames start at least a period apart, reckoned from their
/// anchors; and a frame that is not late is anchored at its deadline exactly, so that the
/// cadence does not drift.
pub proof fn frames_keep_the_period(now: u64, period: u64, last: u64, blocking: bool)
    requires
        last + period <= u64::MAX,
    ensures
        paced(now, Some(period), Some(last), blocking) !is Later ==> anchored(
            paced(now, Some(period), Some(last), blocking),
            Some(last),
        )->0 >= last + period,
        blocking && now < last + period ==> anchored(
            paced(now, Some(period), Some(last), blocking),
            Some(last),
        ) == Some((last + period) as u64),
{
}

/// Without a cap, and on the first frame, nothing waits.
pub proof fn uncapped_frames_start_at_once(now: u64, last: Option<u64>, period: Option<u64>, blocking: bool)
    requires
        period is None || last is None,
    ensures
        paced(now, period, last, blocking) == (Pace::Go { anchor: now }),
{
}

/// `Esc` never ends the app while the UI has the keyboard; a close request always does.
pub proof fn escape_spares_text_fields(runner: Runner, ev: Event)
    requires
        runner.has_window,
    ensures
        ev is Key ==> runner.reaction(ev, true) !is Exit,
        runner.reaction(Event::CloseRequested, true) is Exit,
        runner.reaction(Event::CloseRequested, false) is Exit,
{
}

/// Where the frame encoder is submitted among the steps behind the UI, without a tap.
pub open spec fn submit_place(due: bool, composite: bool) -> int {
    (if due {
        1int
    } else {
        0
    }) + 1 + (if composite {
        1int
    } else {
        0
    })
}

/// A frame without capture taps reaches the GPU in a single submit of the frame encoder.
#[verifier::spinoff_prover]
pub proof fn one_submit_per_frame(timer: bool, due: bool, composite: bool, multisampled: bool)
    ensures
        forall|j: int|
            0 <= j < scene_ops(timer, false, multisampled).len() ==> !((#[trigger] scene_ops(
                timer,
                false,
                multisampled,
            )[j]) is Split || scene_ops(timer, false, multisampled)[j] is Submit),
        forall|j: int|
            0 <= j < finish_ops(timer, due, false, composite).len() ==> !((#[trigger] finish_ops(
                timer,
                due,
                false,
                composite,
            )[j]) is Split) && (finish_ops(timer, due, false, composite)[j] is Submit <==> j
                == submit_place(due, composite)),
        submit_place(due, composite) < finish_ops(timer, due, false, composite).len(),
{
    let scene = scene_ops(timer, false, multisampled);
    let paint = FrameOp::Paint { resolve: multisampled };
    if timer {
        assert(scene =~= seq![FrameOp::TimerStart, FrameOp::Record, paint]);
    } else {
        assert(scene =~= seq![FrameOp::Record, paint]);
    }
    let ops = finish_ops(timer, due, false, composite);
    let tail = if timer {
        seq![FrameOp::Submit, FrameOp::TimerEnd, FrameOp::Present, FrameOp::TimerTick]
    } else {
        seq![FrameOp::Submit, FrameOp::Present]
    };
    if due && composite {
        assert(ops =~= seq![FrameOp::AdvanceCapture, FrameOp::PublishStatus, FrameOp::Composite]
            + tail);
    } else if due {
        assert(ops =~= seq![FrameOp::AdvanceCapture, FrameOp::PublishStatus] + tail);
    } else if composite {
        assert(ops =~= seq![FrameOp::PublishStatus, FrameOp::Composite] + tail);
    } else {
        assert(ops =~= seq![FrameOp::PublishStatus] + tail);
    }
}

/// The stage before the UI is never read back from a multisampled target.
pub proof fn multisampled_scene_is_not_read_back(timer: bool, tap_pre: bool)
    ensures
        !scene_ops(timer, tap_pre, true).contains(FrameOp::CapturePre),
{
}

/// The streak that a run of failed frames leaves.
pub open spec fn streak_after(streak: u32, failures: nat) -> u32
    decreases failures,
{
    if failures == 0 {
        streak
    } else {
        longer_streak(streak_after(streak, (failures - 1) as nat))
    }
}

/// From a good frame on, the loop ends at the failure that makes the streak as long as the
/// budget, and not before; without a budget it never does.
pub proof fn budget_ends_the_loop(runner: Runner, failures: nat)
    requires
        failures <= u32::MAX,
    ensures
        streak_after(0, failures) == failures,
        runner.spent(streak_after(0, failures)) <==> runner.config.render_error_budget > 0
            && failures >= runner.config.render_error_budget,
    decreases failures,
{
    if failures > 0 {
        budget_ends_the_loop(runner, (failures - 1) as nat);
    }
}

/// No input is lost: what does not end the app is routed to the input state as what it is,
/// a key as a key, a button as a button, and only input is. Leaving the window or losing the
/// focus makes the cursor's place unknown; only losing the focus lets the buttons go.
pub proof fn input_reaches_the_input_state(ev: Event, ui_has_focus: bool)
    ensures
        forall|runner: &mut Runner, r: Reaction| #[trigger]
            call_ensures(Runner::window_event, (runner, ev, ui_has_focus), r) && r is Handle ==> {
                &&& ev is Key <==> r->route is Key
                &&& ev is CursorMoved <==> r->route is CursorMoved
                &&& ev is MouseInput <==> r->route is MouseInput
                &&& ev is MouseWheel <==> r->route is MouseWheel
                &&& ev is CursorLeft <==> r->route is InvalidateCursor
                &&& ev == Event::Focused(false) <==> r->route is InvalidateAndRelease
            },
{
}

/// Every event is answered: dropped exactly while there is no window, the end of the app for
/// a close request and for a pressed `Esc` that is bound to it and that no text field of the
/// UI has, and handled in every other case.
pub proof fn only_close_and_escape_end_the_app(ev: Event, ui_has_focus: bool)
    ensures
        forall|runner: &mut Runner, r: Reaction| #[trigger]
            call_ensures(Runner::window_event, (runner, ev, ui_has_focus), r) ==> {
                &&& r is Drop <==> !(*runner).has_window
                &&& r is Exit <==> (*runner).has_window && (ev is CloseRequested || (ev is Key
                    && ev->escape && ev->pressed && (*runner).config.esc_exits && !ui_has_focus))
            },
{
}

/// A handled event either draws a frame or goes on to the app, as soon as there is one; only
/// a redraw request draws.
pub proof fn app_sees_every_event_but_redraws(ev: Event, ui_has_focus: bool)
    ensures
        forall|runner: &mut Runner, r: Reaction| #[trigger]
            call_ensures(Runner::window_event, (runner, ev, ui_has_focus), r) && r is Handle ==> {
                &&& r->redraw <==> ev is RedrawRequested
                &&& !(r->redraw && r->notify)
                &&& (*runner).ready ==> r->redraw || r->notify
                &&& r->notify ==> (*runner).ready
            },
{
}

/// The device follows the window's size, but for a size of zero, which minimizes it; no
/// other event touches either, and nothing else changes.
pub proof fn device_follows_the_window(ev: Event, ui_has_focus: bool)
    ensures
        forall|runner: &mut Runner, r: Reaction| #[trigger]
            call_ensures(Runner::window_event, (runner, ev, ui_has_focus), r) ==> {
                let hidden = (*final(runner)).minimized;
                &&& r is Handle ==> match ev {
                    Event::Resized { width, height } => {
                        &&& hidden <==> width * height == 0
                        &&& r->resize is Some <==> (*runner).ready && !hidden
                        &&& r->resize is Some ==> r->resize->0.width == width
                            && r->resize->0.height == height
                    },
                    _ => r->resize is None && hidden == (*runner).minimized,
                }
                &&& r !is Handle ==> hidden == (*runner).minimized
                &&& *final(runner) == (Runner { minimized: hidden, ..*runner })
            },
{
    if let Event::Resized { width, height } = ev {
        assert(width * height == 0 <==> width == 0 || height == 0) by (nonlinear_arith)
            requires
                width >= 0,
                height >= 0,
        ;
    }
}

/// While the event log is on, everything that happens to a window is logged but for motion
/// and redraws; while it is off, nothing is.
pub proof fn event_log_shows_what_matters(runner: Runner, ev: Event, log_events: bool)
    ensures
        forall|r: bool| #[trigger]
            call_ensures(Runner::logs, (&runner, ev, log_events), r) ==> {
                &&& !log_events || !runner.has_window ==> !r
                &&& log_events && runner.has_window ==> (r <==> !(ev is CursorMoved
                    || ev is AxisMotion || ev is RedrawRequested))
            },
{
}

/// A vsync request is taken up once there is a device, and only once: on is `Fifo`; off is a
/// mode that the surface offers and that does not wait for the display, `Mailbox` before
/// `Immediate`, and the present mode where it offers neither. A minimized window leaves
/// everything as it is.
pub proof fn vsync_requests_are_taken_once(
    supported: Vec<PresentMode>,
    current: PresentMode,
    now: u64,
    blocking: bool,
)
    ensures
        forall|runner: &mut Runner, pacing: &mut Pacing, r: RedrawStart| #[trigger]
            call_ensures(
                Runner::begin_redraw,
                (runner, pacing, &supported, current, now, blocking),
                r,
            ) ==> {
                let offers = |m: PresentMode| supported@.contains(m);
                let off = r.present_mode->0;
                &&& (*runner).minimized ==> r.present_mode is None && r.pace is None
                    && *final(runner) == *runner && *final(pacing) == *pacing
                &&& !(*runner).minimized ==> {
                    &&& (*final(pacing)).pending_vsync is None
                    &&& (*final(pacing)).target_period_ns == (*pacing).target_period_ns
                    &&& r.present_mode is Some <==> (*runner).ready && (*pacing).pending_vsync is Some
                    &&& r.present_mode is Some && (*pacing).pending_vsync == Some(true)
                        ==> off == PresentMode::Fifo
                    &&& r.present_mode is Some && (*pacing).pending_vsync == Some(false) ==> {
                        &&& offers(PresentMode::Mailbox) ==> off == PresentMode::Mailbox
                        &&& !offers(PresentMode::Mailbox) && offers(PresentMode::Immediate)
                            ==> off == PresentMode::Immediate
                        &&& !offers(PresentMode::Mailbox) && !offers(PresentMode::Immediate)
                            ==> off == current
                    }
                }
            },
{
}

/// A frame starts once a period has passed since the last one began, and at once where there
/// is no cap or no last frame. Before that a host that may wait waits until exactly then,
/// and one that may not comes back later. The next period is reckoned from there.
pub proof fn frames_start_on_time(
    supported: Vec<PresentMode>,
    current: PresentMode,
    now: u64,
    blocking: bool,
)
    ensures
        forall|runner: &mut Runner, pacing: &mut Pacing, r: RedrawStart| #[trigger]
            call_ensures(
                Runner::begin_redraw,
                (runner, pacing, &supported, current, now, blocking),
                r,
            ) && (*runner).deadline_fits(*pacing) && !(*runner).minimized ==> {
                let period = (*pacing).target_period_ns;
                let last = (*runner).last_redraw_at;
                let early = period > 0 && last is Some && now - last->0 < period;
                let next = (*final(runner)).last_redraw_at;
                &&& r.pace is Some <==> (*runner).ready
                &&& r.pace is None ==> next == last
                &&& r.pace is Some ==> {
                    &&& r.pace->0 is Go <==> !early
                    &&& r.pace->0 is Wait <==> early && blocking
                    &&& r.pace->0 is Later <==> early && !blocking
                    &&& r.pace->0 is Go ==> r.pace->0->anchor == now && next == Some(now)
                    &&& r.pace->0 is Wait ==> r.pace->0->deadline - last->0 == period && next
                        == Some(r.pace->0->deadline)
                    &&& r.pace->0 is Later ==> next == last
                }
            },
{
}

/// The simulation runs as many ticks as are due, up to the limit, and their names go on
/// where the last frame's stopped, without a gap.
pub proof fn ticks_are_counted_through(due: usize)
    ensures
        forall|runner: &mut Runner, r: Vec<u64>| #[trigger]
            call_ensures(Runner::sim_ticks, (runner, due), r) ==> {
                let limit = (*runner).config.max_ticks_per_frame;
                let names = r@.push((*final(runner)).tick_index);
                &&& r@.len() <= due && r@.len() <= limit
                &&& r@.len() == due || r@.len() == limit
                &&& names[0] == (*runner).tick_index
                &&& forall|i: int|
                    #![trigger names[i]]
                    0 <= i < r@.len() ==> (names[i + 1] - names[i] == 1 || (names[i] == u64::MAX
                        && names[i + 1] == 0))
            },
{
    assert forall|runner: &mut Runner, r: Vec<u64>| #[trigger]
        call_ensures(Runner::sim_ticks, (runner, due), r) implies {
        let limit = (*runner).config.max_ticks_per_frame;
        let names = r@.push((*final(runner)).tick_index);
        &&& r@.len() <= due && r@.len() <= limit
        &&& r@.len() == due || r@.len() == limit
        &&& names[0] == (*runner).tick_index
        &&& forall|i: int|
            #![trigger names[i]]
            0 <= i < r@.len() ==> (names[i + 1] - names[i] == 1 || (names[i] == u64::MAX
                && names[i + 1] == 0))
    } by {
        let first = (*runner).tick_index;
        let names = r@.push((*final(runner)).tick_index);
        assert forall|i: int| 0 <= i <= r@.len() implies names[i] == tick_after(first, i as nat) by {}
        assert(tick_after(first, 0) == first);
        assert forall|i: int|
            #![trigger names[i]]
            0 <= i < r@.len() implies (names[i + 1] - names[i] == 1 || (names[i] == u64::MAX
            && names[i + 1] == 0)) by {
            assert(names[i + 1] == tick_after(first, (i + 1) as nat));
            assert(tick_after(first, (i + 1) as nat) == next_tick(tick_after(first, i as nat)));
        }
    }
}

/// The time that an update is told is the time since the update before it: the times of a
/// run of frames add up to the whole run.
pub proof fn update_times_add_up(now: u64)
    ensures
        forall|runner: &mut Runner, r: Option<u64>| #[trigger]
            call_ensures(Runner::update_elapsed, (runner, now), r) ==> {
                let last = (*runner).last_update_at;
                &&& r is None <==> last is None
                &&& r is Some && last->0 <= now ==> last->0 + r->0 == now
                &&& r is Some && last->0 > now ==> r->0 == 0
                &&& (*final(runner)).last_update_at == Some(now)
            },
{
}

/// Every frame is counted in exactly one reading, and a reading comes once a second has
/// passed since the last one, with the time that it took.
pub proof fn readings_count_every_frame(now: u64)
    ensures
        forall|runner: &mut Runner, r: Option<FpsReading>| #[trigger]
            call_ensures(Runner::count_frame, (runner, now), r) && (*runner).frame_count
                < u32::MAX ==> {
                let handed: int = if r is Some {
                    r->0.frames as int
                } else {
                    0
                };
                &&& handed + (*final(runner)).frame_count == (*runner).frame_count + 1
                &&& r is Some <==> now - (*runner).last_fps_update >= 1_000_000_000
                &&& r is Some ==> (*final(runner)).frame_count == 0 && r->0.elapsed == now
                    - (*runner).last_fps_update && (*final(runner)).last_fps_update == now
                &&& r is None ==> (*final(runner)).last_fps_update == (*runner).last_fps_update
            },
{
}

/// The title shows the app's own title first, and the status in brackets behind it while
/// there is one.
pub proof fn title_shows_title_and_status(title: &str, status: &str)
    ensures
        forall|r: String| #[trigger]
            call_ensures(title_text, (title, None::<&str>), r) ==> r@ == title@,
        forall|r: String| #[trigger]
            call_ensures(title_text, (title, Some(status)), r) ==> {
                let n = title@.len() as int;
                &&& r@.len() == n + status@.len() + 3
                &&& r@.take(n) == title@
                &&& r@[n] == ' ' && r@[n + 1] == '[' && r@.last() == ']'
                &&& r@.subrange(n + 2, n + 2 + status@.len()) == status@
            },
{
    reveal_strlit(" [");
    reveal_strlit("]");
    assert forall|r: String| #[trigger]
        call_ensures(title_text, (title, Some(status)), r) implies {
        let n = title@.len() as int;
        &&& r@.len() == n + status@.len() + 3
        &&& r@.take(n) == title@
        &&& r@[n] == ' ' && r@[n + 1] == '[' && r@.last() == ']'
        &&& r@.subrange(n + 2, n + 2 + status@.len()) == status@
    } by {
        let n = title@.len() as int;
        assert(r@.take(n) =~= title@);
        assert(r@.subrange(n + 2, n + 2 + status@.len()) =~= status@);
    }
}

/// Where a step stands among the steps of a frame. The two splits stand for the readbacks
/// that follow them.
pub open spec fn step_rank(op: FrameOp) -> int {
    match op {
        FrameOp::TimerStart => 0,
        FrameOp::Record => 1,
        FrameOp::CapturePre => 2,
        FrameOp::WarnPreSkipped => 2,
        FrameOp::Paint { .. } => 3,
        FrameOp::CapturePost => 4,
        FrameOp::AdvanceCapture => 5,
        FrameOp::PublishStatus => 6,
        FrameOp::Composite => 7,
        FrameOp::Submit => 8,
        FrameOp::TimerEnd => 9,
        FrameOp::Present => 10,
        FrameOp::TimerTick => 11,
        FrameOp::Split => 12,
    }
}

/// Are the steps in the order of a frame, each once, with a split directly before each
/// readback and nowhere else?
pub open spec fn in_frame_order(ops: Seq<FrameOp>) -> bool {
    &&& forall|i: int, j: int|
        0 <= i < j < ops.len() && ops[i] !is Split && ops[j] !is Split ==> step_rank(
            #[trigger] ops[i],
        ) < step_rank(#[trigger] ops[j])
    &&& forall|i: int, j: int|
        #![trigger ops[i], ops[j]]
        0 <= i && j == i + 1 && j < ops.len() ==> (ops[i] is Split <==> is_readback(ops[j]))
    &&& ops.len() > 0 ==> ops.last() !is Split && !is_readback(ops[0])
}

/// Does the step read a texture back?
pub open spec fn is_readback(op: FrameOp) -> bool {
    op is CapturePre || op is CapturePost
}

/// Do all steps but the splits come before rank `k`?
spec fn steps_below(ops: Seq<FrameOp>, k: int) -> bool {
    forall|i: int| 0 <= i < ops.len() && ops[i] !is Split ==> step_rank(#[trigger] ops[i]) < k
}

proof fn one_more_step(ops: Seq<FrameOp>, op: FrameOp)
    requires
        in_frame_order(ops),
        steps_below(ops, step_rank(op)),
        op !is Split,
        op !is CapturePre,
        op !is CapturePost,
    ensures
        in_frame_order(ops.push(op)),
        steps_below(ops.push(op), step_rank(op) + 1),
        forall|x: FrameOp| #[trigger] ops.push(op).contains(x) <==> ops.contains(x) || x == op,
{
    let r = ops.push(op);
    assert forall|i: int, j: int|
        #![trigger r[i], r[j]]
        0 <= i && j == i + 1 && j < r.len() implies (r[i] is Split <==> is_readback(r[j])) by {
        if j < ops.len() {
            assert(r[i] == ops[i] && r[j] == ops[j]);
        }
    }
    pushed_members(ops, op);
}

proof fn pushed_members(ops: Seq<FrameOp>, op: FrameOp)
    ensures
        forall|x: FrameOp| #[trigger] ops.push(op).contains(x) <==> ops.contains(x) || x == op,
{
    let r = ops.push(op);
    assert forall|x: FrameOp| #[trigger] r.contains(x) <==> ops.contains(x) || x == op by {
        if ops.contains(x) {
            let i = choose|i: int| 0 <= i < ops.len() && ops[i] == x;
            assert(r[i] == x);
        }
        if x == op {
            assert(r[ops.len() as int] == x);
        }
        if r.contains(x) && x != op {
            let i = choose|i: int| 0 <= i < r.len() && r[i] == x;
            assert(ops[i] == x);
        }
    }
}

proof fn one_more_readback(ops: Seq<FrameOp>, op: FrameOp)
    requires
        in_frame_order(ops),
        steps_below(ops, step_rank(op)),
        op is CapturePre || op is CapturePost,
    ensures
        in_frame_order(ops.push(FrameOp::Split).push(op)),
        steps_below(ops.push(FrameOp::Split).push(op), step_rank(op) + 1),
        forall|x: FrameOp| #[trigger]
            ops.push(FrameOp::Split).push(op).contains(x) <==> ops.contains(x) || x == op || x
                == FrameOp::Split,
{
    let r = ops.push(FrameOp::Split).push(op);
    assert forall|i: int, j: int|
        #![trigger r[i], r[j]]
        0 <= i && j == i + 1 && j < r.len() implies (r[i] is Split <==> is_readback(r[j])) by {
        if j < ops.len() {
            assert(r[i] == ops[i] && r[j] == ops[j]);
        }
    }
    pushed_members(ops, FrameOp::Split);
    pushed_members(ops.push(FrameOp::Split), op);
}

/// A frame's steps come in one order: the scene is recorded, read back where the capture
/// wants it, and painted over by the UI; the composite is read back, the status published,
/// the surface composited and submitted, and last it is presented. Each optional step is
/// there exactly when it is asked for.
#[verifier::rlimit(40)]
#[verifier::spinoff_prover]
pub proof fn scene_is_laid_out_in_order(
    timer: bool,
    capture_due: bool,
    wants_pre: bool,
    samples: u32,
)
    ensures
        forall|r: Vec<FrameOp>| #[trigger]
            call_ensures(plan_scene, (timer, capture_due, wants_pre, samples), r) ==> {
                &&& in_frame_order(r@)
                &&& r@.contains(FrameOp::TimerStart) <==> timer
                &&& r@.contains(FrameOp::Record)
                &&& r@.contains(FrameOp::CapturePre) <==> capture_due && wants_pre && samples <= 1
                &&& r@.contains(FrameOp::WarnPreSkipped) <==> capture_due && wants_pre && samples
                    > 1
                &&& r@.len() > 0 && r@.last() == (FrameOp::Paint { resolve: samples > 1 })
            },
{
    let tap = capture_due && wants_pre;
    let ops0 = Seq::<FrameOp>::empty();
    if timer {
        one_more_step(ops0, FrameOp::TimerStart);
    }
    let ops1 = if timer {
        ops0.push(FrameOp::TimerStart)
    } else {
        ops0
    };
    one_more_step(ops1, FrameOp::Record);
    let ops2 = ops1.push(FrameOp::Record);
    if tap && samples > 1 {
        one_more_step(ops2, FrameOp::WarnPreSkipped);
    } else if tap {
        one_more_readback(ops2, FrameOp::CapturePre);
    }
    let ops3 = if tap && samples > 1 {
        ops2.push(FrameOp::WarnPreSkipped)
    } else if tap {
        ops2.push(FrameOp::Split).push(FrameOp::CapturePre)
    } else {
        ops2
    };
    let paint = FrameOp::Paint { resolve: samples > 1 };
    one_more_step(ops3, paint);
    assert(scene_ops(timer, tap, samples > 1) =~= ops3.push(paint));
}

/// The steps behind the UI, in the order of [`scene_is_laid_out_in_order`].
#[verifier::rlimit(60)]
#[verifier::spinoff_prover]
pub proof fn finish_is_laid_out_in_order(
    timer: bool,
    capture_due: bool,
    wants_post: bool,
    has_scene_view: bool,
)
    ensures
        forall|r: Vec<FrameOp>| #[trigger]
            call_ensures(plan_finish, (timer, capture_due, wants_post, has_scene_view), r) ==> {
                &&& in_frame_order(r@)
                &&& r@.contains(FrameOp::CapturePost) <==> capture_due && wants_post
                &&& r@.contains(FrameOp::AdvanceCapture) <==> capture_due
                &&& r@.contains(FrameOp::PublishStatus)
                &&& r@.contains(FrameOp::Composite) <==> has_scene_view
                &&& r@.contains(FrameOp::Submit)
                &&& r@.contains(FrameOp::TimerEnd) <==> timer
                &&& r@.contains(FrameOp::Present)
                &&& r@.contains(FrameOp::TimerTick) <==> timer
                &&& !r@.contains(FrameOp::Record)
            },
{
    let tap = capture_due && wants_post;
    let ops0 = Seq::<FrameOp>::empty();
    if tap {
        one_more_readback(ops0, FrameOp::CapturePost);
    }
    let ops1 = if tap {
        ops0.push(FrameOp::Split).push(FrameOp::CapturePost)
    } else {
        ops0
    };
    if capture_due {
        one_more_step(ops1, FrameOp::AdvanceCapture);
    }
    let ops2 = if capture_due {
        ops1.push(FrameOp::AdvanceCapture)
    } else {
        ops1
    };
    one_more_step(ops2, FrameOp::PublishStatus);
    let ops3 = ops2.push(FrameOp::PublishStatus);
    if has_scene_view {
        one_more_step(ops3, FrameOp::Composite);
    }
    let ops4 = if has_scene_view {
        ops3.push(FrameOp::Composite)
    } else {
        ops3
    };
    one_more_step(ops4, FrameOp::Submit);
    let ops5 = ops4.push(FrameOp::Submit);
    if timer {
        one_more_step(ops5, FrameOp::TimerEnd);
        one_more_step(ops5.push(FrameOp::TimerEnd), FrameOp::Present);
        one_more_step(
            ops5.push(FrameOp::TimerEnd).push(FrameOp::Present),
            FrameOp::TimerTick,
        );
        assert(finish_ops(timer, capture_due, tap, has_scene_view) =~= ops5.push(
            FrameOp::TimerEnd,
        ).push(FrameOp::Present).push(FrameOp::TimerTick));
    } else {
        one_more_step(ops5, FrameOp::Present);
        assert(finish_ops(timer, capture_due, tap, has_scene_view) =~= ops5.push(
            FrameOp::Present,
        ));
    }
}

/// A good frame clears the count of failures. A failed one adds to it, and ends the loop
/// with its error exactly when the count reaches the budget; without a budget it never does.
pub proof fn failures_end_the_loop_at_the_budget(e: &str)
    ensures
        forall|runner: &mut Runner, r: AfterFrame| #[trigger]
            call_ensures(Runner::frame_presented, (runner, None::<&str>), r) ==> {
                &&& r is Redraw
                &&& (*final(runner)).render_error_streak == 0
                &&& (*final(runner)).deferred_error == (*runner).deferred_error
            },
        forall|runner: &mut Runner, r: AfterFrame| #[trigger]
            call_ensures(Runner::frame_presented, (runner, Some(e)), r) ==> {
                let budget = (*runner).config.render_error_budget;
                let n = (*runner).render_error_streak;
                let left = (*final(runner)).deferred_error;
                &&& n < u32::MAX ==> (*final(runner)).render_error_streak - n == 1
                &&& n == u32::MAX ==> (*final(runner)).render_error_streak == n
                &&& r is Exit <==> budget > 0 && n + 1 >= budget
                &&& r is Exit ==> left is Some && left->0.cause is Some && left->0.cause->0@ == e@
                &&& r is Exit ==> left->0.message@ == "App::render failed "@ + text::decimal(
                    budget as nat,
                ) + " consecutive frames; aborting"@
                &&& r !is Exit ==> r is Redraw && left == (*runner).deferred_error
            },
{
}

/// A surface that is gone is made anew, one that is late is tried again, and only the want
/// of memory ends the loop, with an error.
pub proof fn faults_end_the_loop_only_without_memory(fault: SurfaceFault)
    ensures
        forall|runner: &mut Runner, r: AfterFrame| #[trigger]
            call_ensures(Runner::frame_failed, (runner, fault), r) ==> {
                &&& r is Exit <==> fault is OutOfMemory
                &&& r is ResizeAndRedraw <==> fault is Lost || fault is Outdated
                &&& r is LogAndRedraw <==> fault is Other
                &&& r is Exit ==> (*final(runner)).deferred_error is Some
                &&& r !is Exit ==> *final(runner) == *runner
            },
{
}

/// What the runner failed with is what the app is told at the end; without a failure the end
/// is a good one.
pub proof fn errors_come_out_at_the_end(message: &str)
    ensures
        forall|runner: &mut Runner, r: Result<(), DeferredError>|
            #![trigger call_ensures(Runner::fail, (runner, message), ()), call_ensures(Runner::finish, (*final(runner),), r)]
            call_ensures(Runner::fail, (runner, message), ()) && call_ensures(
                Runner::finish,
                (*final(runner),),
                r,
            ) ==> r is Err && r->Err_0.message@ == message@,
        forall|runner: Runner, r: Result<(), DeferredError>| #[trigger]
            call_ensures(Runner::finish, (runner,), r) ==> (r is Ok <==> runner.deferred_error is None),
{
}

/// A setup beside the event loop is waited for; a good one in a window makes the runner ready
/// and lets the loop go on, and any other one ends it with an error.
pub proof fn setup_makes_the_runner_ready(result: Option<Result<(), String>>, now: u64)
    ensures
        forall|runner: &mut Runner, r: Option<bool>| #[trigger]
            call_ensures(Runner::poll_pending_init, (runner, result, now), r) ==> {
                let good = (*runner).has_window && result is Some && result->0 is Ok;
                &&& r is None <==> result is None
                &&& r == Some(false) <==> good
                &&& good ==> (*final(runner)).ready && !(*final(runner)).minimized
                    && (*final(runner)).deferred_error == (*runner).deferred_error
                &&& r == Some(true) ==> (*final(runner)).deferred_error is Some
                    && (*final(runner)).ready == (*runner).ready
                &&& r == Some(true) && (*runner).has_window
                    ==> (*final(runner)).deferred_error->0.message@ == result->0->Err_0@
                &&& r is None ==> *final(runner) == *runner
            },
        forall|runner: &mut Runner| #[trigger]
            call_ensures(Runner::install_init, (runner, now), ()) ==> {
                &&& (*final(runner)).has_window && (*final(runner)).ready
                &&& !(*final(runner)).minimized
                &&& (*final(runner)).last_fps_update == now
                &&& (*final(runner)).frame_count == (*runner).frame_count
            },
{
}

/// The scene is drawn where it can be resolved or composited from: into the multisampled
/// view while there is one, and into the surface itself only where there is no other view.
/// A worker never opens a window, and a page waits for a click exactly when it asks to.
pub proof fn targets_and_entries_follow_what_is_there(a: bool, b: bool)
    ensures
        forall|r: Target| #[trigger]
            call_ensures(render_target, (a, b), r) ==> {
                &&& r is Msaa <==> a
                &&& r is Surface <==> !a && !b
            },
        forall|r: Entry| #[trigger]
            call_ensures(entry, (a, b), r) ==> {
                &&& r is Worker <==> a
                &&& r is LaunchOnClick <==> b && !a
            },
{
}

/// The present mode that is chosen fits the request: on is the one that waits for the display, off
/// the best that the surface offers of those that do not, and the one that it has where it
/// offers none. An event is too frequent to log only if it comes with every move or redraw.
pub proof fn chosen_modes_fit_the_request()
    ensures
        forall|want_on: bool, supported: &Vec<PresentMode>, current: PresentMode, r: PresentMode|
            #[trigger]
            call_ensures(choose_present_mode, (want_on, supported, current), r) ==> {
                &&& want_on ==> r is Fifo
                &&& !want_on && supported@.contains(PresentMode::Mailbox) ==> r is Mailbox
                &&& !want_on && !supported@.contains(PresentMode::Mailbox) && supported@.contains(
                    PresentMode::Immediate,
                ) ==> r is Immediate
                &&& !want_on && !supported@.contains(PresentMode::Mailbox) && !supported@.contains(
                    PresentMode::Immediate,
                ) ==> r == current
            },
        forall|e: Event, r: bool| #[trigger]
            call_ensures(Event::is_noise, (e,), r) ==> (r <==> e is CursorMoved
                || e is RedrawRequested || e is AxisMotion),
        forall|last: Option<u64>, now: u64, r: Option<u64>| #[trigger]
            call_ensures(time_since, (last, now), r) ==> {
                &&& r is None <==> last is None
                &&& last is Some && last->0 <= now ==> r == Some((now - last->0) as u64)
                &&& last is Some && last->0 > now ==> r == Some(0u64)
            },
        forall|first: u64, n: usize, r: (Vec<u64>, u64)| #[trigger]
            call_ensures(name_ticks, (first, n), r) && first + n <= u64::MAX ==> {
                &&& r.0@.len() == n
                &&& r.1 == first + n
                &&& forall|i: int| 0 <= i < n ==> #[trigger] r.0@[i] == first + i
            },
{
    assert forall|first: u64, n: nat| first + n <= u64::MAX implies #[trigger] tick_after(first, n)
        == first + n by {
        ticks_count_up(first, n);
    }
}

} // verus!
