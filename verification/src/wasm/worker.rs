//! The worker: starting its frame loop, taking in messages, and laying out a frame.

use vstd::prelude::*;

use crate::runner;
use crate::runner::{name_ticks, FrameOp, Size};
use crate::text::text_eq;
use crate::wasm::messages;
use crate::wasm::messages::{InputMessage, InputView, Posted, PostedView, Real};

verus! {

// ---------------------------------------------------------------------------
// Starting
// ---------------------------------------------------------------------------

/// The start of the frame loop. It takes both: the setup done, which renders one preview
/// frame and leaves the loop to be kicked off, and the user's start. They come in either
/// order.
#[derive(Copy, Clone, Debug, PartialEq, Eq, Structural)]
pub struct Kickoff {
    /// The loop can be kicked off, and has not been.
    pub stashed: bool,
    /// A start came before it could be.
    pub start_requested: bool,
}

impl Kickoff {
    /// After a start message.
    pub open spec fn started(self) -> Kickoff {
        if self.stashed {
            Kickoff { stashed: false, ..self }
        } else {
            Kickoff { start_requested: true, ..self }
        }
    }

    /// After the setup is done.
    pub open spec fn set_up(self) -> Kickoff {
        Kickoff { stashed: !self.start_requested, start_requested: false }
    }

    pub fn new() -> (r: Kickoff)
        ensures
            r == (Kickoff { stashed: false, start_requested: false }),
    {
        Kickoff { stashed: false, start_requested: false }
    }

    /// A start message came. Returns whether to kick off the loop now.
    pub fn on_start(&mut self) -> (r: bool)
        ensures
            r == old(self).stashed,
            *final(self) == old(self).started(),
    {
        if self.stashed {
            self.stashed = false;
            true
        } else {
            self.start_requested = true;
            false
        }
    }

    /// The setup is done. Returns whether to kick off the loop now.
    pub fn on_setup(&mut self) -> (r: bool)
        ensures
            r == old(self).start_requested,
            *final(self) == old(self).set_up(),
    {
        let start = self.start_requested;
        self.stashed = !start;
        self.start_requested = false;
        start
    }
}

/// Whichever comes first, the setup or the start, the loop is kicked off when the second
/// comes, and by no further start.
pub proof fn loop_starts_once(fresh: Kickoff)
    requires
        fresh == (Kickoff { stashed: false, start_requested: false }),
    ensures
        !fresh.start_requested && fresh.set_up().stashed,
        !fresh.stashed && fresh.started().start_requested,
        !fresh.set_up().started().stashed,
        !fresh.started().set_up().stashed,
        !fresh.started().started().set_up().stashed,
{
}

// ---------------------------------------------------------------------------
// Incoming messages
// ---------------------------------------------------------------------------

/// What the worker does with a posted object.
pub enum Incoming {
    /// Start the frame loop.
    Start,
    /// Set up with a canvas of this size.
    Init(Size),
    /// Keep it for the next frame.
    Queue(InputMessage),
    /// Log and drop an object of a kind that is not known.
    Unknown,
    /// Report an object without a kind.
    Malformed,
}

/// What a posted object is, over plain values.
pub enum IncomingView {
    Start,
    Init(Size),
    Queue(InputView),
    Unknown,
    Malformed,
}

impl View for Incoming {
    type V = IncomingView;

    open spec fn view(&self) -> IncomingView {
        match self {
            Incoming::Start => IncomingView::Start,
            Incoming::Init(s) => IncomingView::Init(*s),
            Incoming::Queue(m) => IncomingView::Queue(m@),
            Incoming::Unknown => IncomingView::Unknown,
            Incoming::Malformed => IncomingView::Malformed,
        }
    }
}

/// What a posted object calls for. `start` must not wait for a frame, since frames wait for
/// it; `init` carries the canvas. All else waits.
pub open spec fn incoming(p: PostedView) -> IncomingView {
    match p.kind {
        None => IncomingView::Malformed,
        Some(kind) => if kind == "start"@ {
            IncomingView::Start
        } else if kind == "init"@ {
            IncomingView::Init(
                Size {
                    width: messages::field_or(p.wholes, "width"@, 800),
                    height: messages::field_or(p.wholes, "height"@, 600),
                },
            )
        } else {
            match messages::message_of(kind, p) {
                Some(m) => IncomingView::Queue(m),
                None => IncomingView::Unknown,
            }
        },
    }
}

/// Decide on a posted object.
pub fn handle_message(p: &Posted) -> (r: Incoming)
    ensures
        r@ == incoming(p@),
{
    if let Some(kind) = &p.kind {
        if text_eq(kind.as_str(), "start") {
            return Incoming::Start;
        }
        if text_eq(kind.as_str(), "init") {
            return Incoming::Init(
                Size {
                    width: messages::read_field(&p.wholes, "width", 800u32),
                    height: messages::read_field(&p.wholes, "height", 600u32),
                },
            );
        }
    }
    match messages::parse_non_init(p) {
        Ok(Some(m)) => Incoming::Queue(m),
        Ok(None) => Incoming::Unknown,
        Err(_) => Incoming::Malformed,
    }
}

// ---------------------------------------------------------------------------
// Applying messages
// ---------------------------------------------------------------------------

/// What a message does to the input state and the surface. The UI has seen it already.
pub enum Applied {
    Nothing,
    /// Reconfigure the surface to this size, if there is one, then render a frame, so that
    /// the preview shows unstretched.
    Resize { reconfigure: Option<Size> },
    /// The cursor is at `(x, y)`; since the last such message the mouse moved by `(dx, dy)`
    /// in all, which is what looking around goes by.
    CursorMoved { x: Real, y: Real, dx: Real, dy: Real },
    MouseInput { button: u8, pressed: bool },
    MouseWheel { dx: Real, dy: Real },
    /// A key by its physical code; codes that have no key do nothing.
    Key { code: String, pressed: bool },
    /// Release all buttons and forget where the cursor was.
    FocusLost,
    /// The browser locked or released the pointer.
    PointerLock(bool),
}

/// An `Applied` over plain values.
pub enum AppliedView {
    Nothing,
    Resize { reconfigure: Option<Size> },
    CursorMoved { x: Real, y: Real, dx: Real, dy: Real },
    MouseInput { button: u8, pressed: bool },
    MouseWheel { dx: Real, dy: Real },
    Key { code: Seq<char>, pressed: bool },
    FocusLost,
    PointerLock(bool),
}

impl View for Applied {
    type V = AppliedView;

    open spec fn view(&self) -> AppliedView {
        match *self {
            Applied::Nothing => AppliedView::Nothing,
            Applied::Resize { reconfigure } => AppliedView::Resize { reconfigure },
            Applied::CursorMoved { x, y, dx, dy } => AppliedView::CursorMoved { x, y, dx, dy },
            Applied::MouseInput { button, pressed } => AppliedView::MouseInput {
                button,
                pressed,
            },
            Applied::MouseWheel { dx, dy } => AppliedView::MouseWheel { dx, dy },
            Applied::Key { code, pressed } => AppliedView::Key { code: code@, pressed },
            Applied::FocusLost => AppliedView::FocusLost,
            Applied::PointerLock(b) => AppliedView::PointerLock(b),
        }
    }
}

/// What a message does. A size of zero leaves the surface alone.
pub open spec fn applied(m: InputView) -> AppliedView {
    match m {
        InputView::Resize { width, height } => AppliedView::Resize {
            reconfigure: if width == 0 || height == 0 {
                None
            } else {
                Some(Size { width, height })
            },
        },
        InputView::MouseMove { x, y, dx, dy, .. } => AppliedView::CursorMoved { x, y, dx, dy },
        InputView::MouseButton { button, pressed, .. } => AppliedView::MouseInput {
            button,
            pressed,
        },
        InputView::MouseWheel { dx, dy } => AppliedView::MouseWheel { dx, dy },
        InputView::Key { code, pressed, .. } => AppliedView::Key { code, pressed },
        InputView::Focus(focused) => if focused {
            AppliedView::Nothing
        } else {
            AppliedView::FocusLost
        },
        InputView::PointerLockChanged(locked) => AppliedView::PointerLock(locked),
        InputView::Visibility(_) | InputView::Start => AppliedView::Nothing,
    }
}

/// The worker's own state, between two frames.
#[derive(Copy, Clone, Debug, PartialEq, Eq, Structural)]
pub struct WorkerRunner {
    pub size: Size,
    pub last_update_at: Option<u64>,
    pub tick_index: u64,
    pub max_ticks_per_frame: usize,
}

impl WorkerRunner {
    pub fn new(size: Size) -> (r: WorkerRunner)
        ensures
            r == (WorkerRunner {
                size,
                last_update_at: None,
                tick_index: 0,
                max_ticks_per_frame: 4,
            }),
    {
        WorkerRunner { size, last_update_at: None, tick_index: 0, max_ticks_per_frame: 4 }
    }

    /// Take up a message.
    pub fn apply_message(&mut self, msg: &InputMessage) -> (r: Applied)
        ensures
            r@ == applied(msg@),
            *final(self) == (WorkerRunner {
                size: match r@ {
                    AppliedView::Resize { reconfigure: Some(size) } => size,
                    _ => old(self).size,
                },
                ..*old(self)
            }),
    {
        match msg {
            InputMessage::Resize { width, height } => {
                if *width == 0 || *height == 0 {
                    return Applied::Resize { reconfigure: None };
                }
                let size = Size { width: *width, height: *height };
                self.size = size;
                Applied::Resize { reconfigure: Some(size) }
            },
            InputMessage::MouseMove { x, y, dx, dy, .. } => Applied::CursorMoved {
                x: *x,
                y: *y,
                dx: *dx,
                dy: *dy,
            },
            InputMessage::MouseButton { button, pressed, .. } => Applied::MouseInput {
                button: *button,
                pressed: *pressed,
            },
            InputMessage::MouseWheel { dx, dy } => Applied::MouseWheel { dx: *dx, dy: *dy },
            InputMessage::Key { code, pressed, .. } => Applied::Key {
                code: code.as_str().to_owned(),
                pressed: *pressed,
            },
            InputMessage::Focus(focused) => if *focused {
                Applied::Nothing
            } else {
                Applied::FocusLost
            },
            InputMessage::PointerLockChanged(locked) => Applied::PointerLock(*locked),
            InputMessage::Visibility(_) => Applied::Nothing,
            InputMessage::Start => Applied::Nothing,
        }
    }

    /// The time since the previous update, and the ticks to simulate, of the `due` that the
    /// clock says. `None` on the first frame, for which one tick's interval stands in.
    pub fn frame(&mut self, now: u64, due: usize) -> (r: (Option<u64>, Vec<u64>))
        ensures
            r.0 == runner::elapsed_since(old(self).last_update_at, now),
            r.1@ == runner::tick_names(
                old(self).tick_index,
                runner::smaller(due as nat, old(self).max_ticks_per_frame as nat),
            ),
            *final(self) == (WorkerRunner {
                last_update_at: Some(now),
                tick_index: runner::tick_after(old(self).tick_index, r.1@.len()),
                ..*old(self)
            }),
    {
        let elapsed = runner::time_since(self.last_update_at, now);
        self.last_update_at = Some(now);
        let n: usize = if due <= self.max_ticks_per_frame {
            due
        } else {
            self.max_ticks_per_frame
        };
        let (names, next) = name_ticks(self.tick_index, n);
        self.tick_index = next;
        (elapsed, names)
    }
}

/// The steps of a worker's frame: no captures, no timers, and a single submit.
pub open spec fn worker_ops(multisampled: bool, composite: bool) -> Seq<FrameOp> {
    seq![FrameOp::Record, FrameOp::Paint { resolve: multisampled }] + (if composite {
        seq![FrameOp::Composite]
    } else {
        seq![]
    }) + seq![FrameOp::Submit, FrameOp::Present]
}

/// Lay out a worker's frame.
pub fn plan_frame(samples: u32, has_scene_view: bool) -> (r: Vec<FrameOp>)
    ensures
        r@ == worker_ops(samples > 1, has_scene_view),
{
    let mut out: Vec<FrameOp> = Vec::new();
    out.push(FrameOp::Record);
    out.push(FrameOp::Paint { resolve: samples > 1 });
    if has_scene_view {
        out.push(FrameOp::Composite);
    }
    out.push(FrameOp::Submit);
    out.push(FrameOp::Present);
    assert(out@ =~= worker_ops(samples > 1, has_scene_view));
    out
}

// ---------------------------------------------------------------------------
// Laws
// ---------------------------------------------------------------------------

/// What the page posts is what the input state gets: a key or a button with the code or the
/// button and the pressed state that its message carries, a wheel with its own way, a move
/// with its own place and way, and a change of the pointer lock with its own state.
pub proof fn input_state_gets_what_was_posted()
    ensures
        forall|w: &mut WorkerRunner, msg: &InputMessage, r: Applied| #[trigger]
            call_ensures(WorkerRunner::apply_message, (w, msg), r) ==> {
                &&& *msg matches InputMessage::Key { code, pressed, .. } ==> r is Key
                    && r->code@ == code@ && r->Key_pressed == pressed
                &&& *msg matches InputMessage::MouseButton { button, pressed, .. } ==> r is MouseInput
                    && r->button == button && r->MouseInput_pressed == pressed
                &&& *msg matches InputMessage::MouseWheel { dx, dy } ==> r is MouseWheel
                    && r->MouseWheel_dx == dx && r->MouseWheel_dy == dy
                &&& *msg matches InputMessage::MouseMove { x, y, dx, dy, .. } ==> r is CursorMoved
                    && r->x == x && r->y == y && r->CursorMoved_dx == dx && r->CursorMoved_dy == dy
                &&& *msg matches InputMessage::PointerLockChanged(locked) ==> r is PointerLock
                    && r->PointerLock_0 == locked
                &&& *msg matches InputMessage::Focus(focused) ==> (r is FocusLost <==> !focused)
                &&& !(msg is Resize) ==> *final(w) == *w
            },
{
    assert forall|w: &mut WorkerRunner, msg: &InputMessage, r: Applied| #[trigger]
        call_ensures(WorkerRunner::apply_message, (w, msg), r) implies {
        &&& *msg matches InputMessage::Key { code, pressed, .. } ==> r is Key && r->code@ == code@
            && r->Key_pressed == pressed
        &&& *msg matches InputMessage::MouseButton { button, pressed, .. } ==> r is MouseInput
            && r->button == button && r->MouseInput_pressed == pressed
        &&& *msg matches InputMessage::MouseWheel { dx, dy } ==> r is MouseWheel
            && r->MouseWheel_dx == dx && r->MouseWheel_dy == dy
        &&& *msg matches InputMessage::MouseMove { x, y, dx, dy, .. } ==> r is CursorMoved && r->x
            == x && r->y == y && r->CursorMoved_dx == dx && r->CursorMoved_dy == dy
        &&& *msg matches InputMessage::PointerLockChanged(locked) ==> r is PointerLock
            && r->PointerLock_0 == locked
        &&& *msg matches InputMessage::Focus(focused) ==> (r is FocusLost <==> !focused)
        &&& !(msg is Resize) ==> *final(w) == *w
    } by {
        assert(r@ == applied(msg@));
    }
}

/// A key that is pressed and let go is up, and so is a button: of two messages for one key
/// or button, the one that releases it applies as a release of the same one.
pub proof fn a_release_undoes_a_press()
    ensures
        forall|
            w: &mut WorkerRunner,
            down: &InputMessage,
            r: Applied,
            v: &mut WorkerRunner,
            up: &InputMessage,
            q: Applied,
        |
            #![trigger call_ensures(WorkerRunner::apply_message, (w, down), r), call_ensures(
                WorkerRunner::apply_message,
                (v, up),
                q,
            )]
            call_ensures(WorkerRunner::apply_message, (w, down), r) && call_ensures(
                WorkerRunner::apply_message,
                (v, up),
                q,
            ) ==> {
                &&& down is Key && up is Key && down->code@ == up->code@ && down->Key_pressed
                    != up->Key_pressed ==> r is Key && q is Key && r->code@ == q->code@
                    && r->Key_pressed == !q->Key_pressed && q->Key_pressed == up->Key_pressed
                &&& down is MouseButton && up is MouseButton && down->button == up->button
                    && down->MouseButton_pressed != up->MouseButton_pressed ==> r is MouseInput
                    && q is MouseInput && r->button == q->button && r->MouseInput_pressed
                    == !q->MouseInput_pressed && q->MouseInput_pressed == up->MouseButton_pressed
            },
{
    input_state_gets_what_was_posted();
}

/// The surface follows the canvas: a resize to a size that has an area is what the surface is
/// set to and what the worker keeps; one without leaves both alone, and still calls for a
/// frame.
pub proof fn surface_follows_the_canvas()
    ensures
        forall|w: &mut WorkerRunner, msg: &InputMessage, r: Applied| #[trigger]
            call_ensures(WorkerRunner::apply_message, (w, msg), r) ==> (*msg matches
                InputMessage::Resize { width, height } ==> {
                &&& r is Resize
                &&& width > 0 && height > 0 ==> r->reconfigure == Some(Size { width, height })
                    && final(w).size == (Size { width, height })
                &&& width == 0 || height == 0 ==> r->reconfigure is None && final(w).size == w.size
                &&& final(w).tick_index == w.tick_index
                &&& final(w).last_update_at == w.last_update_at
                &&& final(w).max_ticks_per_frame == w.max_ticks_per_frame
            }),
{
    assert forall|w: &mut WorkerRunner, msg: &InputMessage, r: Applied| #[trigger]
        call_ensures(WorkerRunner::apply_message, (w, msg), r) implies (*msg matches
        InputMessage::Resize { width, height } ==> {
        &&& r is Resize
        &&& width > 0 && height > 0 ==> r->reconfigure == Some(Size { width, height })
            && final(w).size == (Size { width, height })
        &&& width == 0 || height == 0 ==> r->reconfigure is None && final(w).size == w.size
        &&& final(w).tick_index == w.tick_index
        &&& final(w).last_update_at == w.last_update_at
        &&& final(w).max_ticks_per_frame == w.max_ticks_per_frame
    }) by {
        assert(r@ == applied(msg@));
    }
}

/// What a message says reaches the worker: an object that a message was posted as is queued
/// as that message, but for a start, which is not kept waiting.
pub proof fn posted_messages_are_queued(m: InputView)
    ensures
        forall|p: &Posted, r: Incoming| #[trigger]
            call_ensures(handle_message, (p,), r) && p@ == messages::posted(m) ==> (if m is Start {
                r is Start
            } else {
                r is Queue && r->Queue_0@ == m
            }),
        forall|p: &Posted, r: Incoming| #[trigger]
            call_ensures(handle_message, (p,), r) ==> (p.kind is None <==> r is Malformed),
{
    reveal_strlit("start");
    reveal_strlit("init");
    reveal_strlit("resize");
    reveal_strlit("mouse_move");
    reveal_strlit("mouse_button");
    reveal_strlit("mouse_wheel");
    reveal_strlit("key");
    reveal_strlit("focus");
    reveal_strlit("visibility");
    reveal_strlit("pointer_lock_changed");
    messages::messages_round_trip(m);
    let kind = messages::posted(m).kind->0;
    assert(kind != "init"@) by {
        assert("init"@[1] == 'n');
        if kind.len() == "init"@.len() {
            assert(kind[1] != 'n');
        }
    }
    assert(kind == "start"@ <==> m is Start) by {
        if !(m is Start) {
            assert("start"@[1] == 't');
            if kind.len() == "start"@.len() {
                assert(kind[1] != 't');
            }
        }
    }
}

/// The worker's updates and ticks add up. The first frame stands for no elapsed time; every
/// later one for the time since the frame before it. No frame simulates more ticks than are
/// due or than the worker allows, none is held back where they fit, and the ticks of frame
/// after frame are counted through.
pub proof fn worker_time_adds_up()
    ensures
        forall|w: &mut WorkerRunner, now: u64, due: usize, r: (Option<u64>, Vec<u64>)| #[trigger]
            call_ensures(WorkerRunner::frame, (w, now, due), r) ==> {
                &&& r.0 is None <==> w.last_update_at is None
                &&& w.last_update_at is Some && w.last_update_at->0 <= now ==> r.0 == Some(
                    (now - w.last_update_at->0) as u64,
                )
                &&& final(w).last_update_at == Some(now)
                &&& r.1@.len() <= due && r.1@.len() <= w.max_ticks_per_frame
                &&& r.1@.len() == due || r.1@.len() == w.max_ticks_per_frame
                &&& forall|i: int|
                    0 <= i < r.1@.len() && w.tick_index + i <= u64::MAX ==> #[trigger] r.1@[i]
                        == w.tick_index + i
                &&& w.tick_index + r.1@.len() <= u64::MAX ==> final(w).tick_index == w.tick_index
                    + r.1@.len()
                &&& final(w).size == w.size
                &&& final(w).max_ticks_per_frame == w.max_ticks_per_frame
            },
{
    assert forall|first: u64, n: nat| first + n <= u64::MAX implies #[trigger] runner::tick_after(
        first,
        n,
    ) == first + n by {
        runner::ticks_count_up(first, n);
    }
}

/// A worker's frame is recorded, painted, composited where there is a scene to composite, and
/// then submitted and shown, each once and in that order. The paint resolves exactly where
/// there is more than one sample.
pub proof fn worker_frames_are_laid_out_in_order(samples: u32, composite: bool)
    ensures
        forall|ops: Vec<FrameOp>| #[trigger]
            call_ensures(plan_frame, (samples, composite), ops) ==> {
                let n = ops@.len() as int;
                &&& n == (if composite {
                    5int
                } else {
                    4int
                })
                &&& ops@[0] is Record
                &&& ops@[1] == (FrameOp::Paint { resolve: samples >= 2 })
                &&& composite ==> ops@[2] is Composite
                &&& ops@[n - 2] is Submit
                &&& ops@[n - 1] is Present
            },
{
}

/// The loop is kicked off by the second of the two that it takes, whichever that is, and by
/// nothing else.
pub proof fn loop_waits_for_both()
    ensures
        forall|k: &mut Kickoff, r: bool| #[trigger]
            call_ensures(Kickoff::on_start, (k,), r) ==> {
                &&& r == k.stashed
                &&& !final(k).stashed
                &&& !r ==> final(k).start_requested
            },
        forall|k: &mut Kickoff, r: bool| #[trigger]
            call_ensures(Kickoff::on_setup, (k,), r) ==> {
                &&& r == k.start_requested
                &&& !final(k).start_requested
                &&& final(k).stashed == !r
            },
        forall|k: Kickoff| #[trigger] call_ensures(Kickoff::new, (), k) ==> !k.stashed
            && !k.start_requested,
        forall|size: Size, w: WorkerRunner| #[trigger]
            call_ensures(WorkerRunner::new, (size,), w) ==> w.size == size && w.last_update_at is None
                && w.tick_index == 0 && w.max_ticks_per_frame > 0,
{
}

/// The canvas of an init has the size that it says, and a default one where it says none; an
/// object of a kind that there is none of is dropped.
pub proof fn init_sets_the_canvas(width: u32, height: u32)
    ensures
        forall|p: &Posted, r: Incoming| #[trigger]
            call_ensures(handle_message, (p,), r) && p@.kind == Some("init"@) ==> {
                &&& r is Init
                &&& p@.wholes == seq![("width"@, width), ("height"@, height)] ==> r->Init_0 == (
                Size { width, height })
                &&& p@.wholes.len() == 0 ==> r->Init_0 == (Size { width: 800, height: 600 })
            },
        forall|p: &Posted, r: Incoming| #[trigger]
            call_ensures(handle_message, (p,), r) && p@.kind == Some("start"@) ==> r is Start,
        forall|p: &Posted, r: Incoming| #[trigger]
            call_ensures(handle_message, (p,), r) && p@.kind == Some("nothing known"@)
                ==> r is Unknown,
{
    reveal_strlit("start");
    reveal_strlit("init");
    reveal_strlit("resize");
    reveal_strlit("mouse_move");
    reveal_strlit("mouse_button");
    reveal_strlit("mouse_wheel");
    reveal_strlit("key");
    reveal_strlit("focus");
    reveal_strlit("visibility");
    reveal_strlit("pointer_lock_changed");
    reveal_strlit("nothing known");
    reveal_strlit("width");
    reveal_strlit("height");
    assert("width"@.len() == 5 && "height"@.len() == 6);
    assert("nothing known"@.len() == 13);
    assert("start"@.len() == 5 && "init"@.len() == 4);
    let both = seq![("width"@, width), ("height"@, height)];
    assert(both.drop_last() =~= seq![("width"@, width)]);
    reveal_with_fuel(messages::field, 3);
}

} // verus!
