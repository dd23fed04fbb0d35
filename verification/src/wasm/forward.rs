//! Forwarding the page's events to the worker: which are held back, which are summed up,
//! and which the browser does not get to see.

use vstd::prelude::*;

use crate::runner::Size;
use crate::text::text_eq;

verus! {

/// Frames without a resize event before a size is committed.
pub const RESIZE_DEBOUNCE_FRAMES: u32 = 6;

/// A size that waits to be committed.
#[derive(Copy, Clone, Debug, PartialEq, Eq, Structural)]
pub struct PendingSize {
    pub size: Size,
    /// Frames since the last event.
    pub frames: u32,
}

/// Holds resize events back until they have stopped: reconfiguring a surface is too heavy
/// to do while the window is dragged.
#[derive(Copy, Clone, Debug, PartialEq, Eq, Structural)]
pub struct ResizeDebounce {
    pub pending: Option<PendingSize>,
}

impl ResizeDebounce {
    pub open spec fn wf(&self) -> bool {
        self.pending is Some ==> self.pending->0.frames < RESIZE_DEBOUNCE_FRAMES
    }

    /// After a resize event.
    pub open spec fn resized(self, size: Size) -> ResizeDebounce {
        ResizeDebounce { pending: Some(PendingSize { size, frames: 0 }) }
    }

    /// After a frame.
    pub open spec fn ticked(self) -> ResizeDebounce {
        match self.pending {
            Some(p) if p.frames + 1 < RESIZE_DEBOUNCE_FRAMES => ResizeDebounce {
                pending: Some(PendingSize { size: p.size, frames: (p.frames + 1) as u32 }),
            },
            _ => ResizeDebounce { pending: None },
        }
    }

    /// The size that a frame commits.
    pub open spec fn committed(self) -> Option<Size> {
        match self.pending {
            Some(p) if p.frames + 1 >= RESIZE_DEBOUNCE_FRAMES => Some(p.size),
            _ => None,
        }
    }

    pub fn new() -> (r: ResizeDebounce)
        ensures
            r.wf(),
            r.pending is None,
    {
        ResizeDebounce { pending: None }
    }

    /// A resize event came: the count starts over.
    pub fn on_resize(&mut self, size: Size)
        ensures
            final(self).wf(),
            *final(self) == old(self).resized(size),
    {
        self.pending = Some(PendingSize { size, frames: 0 });
    }

    /// A frame passed. Returns the size to commit, once no event came for long enough.
    pub fn on_frame(&mut self) -> (r: Option<Size>)
        requires
            old(self).wf(),
        ensures
            final(self).wf(),
            *final(self) == old(self).ticked(),
            r == old(self).committed(),
    {
        match self.pending {
            Some(p) => {
                let frames: u32 = p.frames + 1;
                if frames >= RESIZE_DEBOUNCE_FRAMES {
                    self.pending = None;
                    Some(p.size)
                } else {
                    self.pending = Some(PendingSize { size: p.size, frames });
                    None
                }
            },
            None => None,
        }
    }
}

/// A mouse move, as the browser reports it: where the pointer is, and how far it moved.
#[derive(Copy, Clone, Debug, PartialEq, Eq, Structural)]
pub struct MouseMove {
    pub x: i32,
    pub y: i32,
    pub buttons: u16,
    pub dx: i32,
    pub dy: i32,
}

/// The moves of a frame in one: the last place, and the whole way.
#[derive(Copy, Clone, Debug, PartialEq, Eq, Structural)]
pub struct MergedMove {
    pub x: i32,
    pub y: i32,
    pub buttons: u16,
    pub dx: i64,
    pub dy: i64,
}

/// The way of several moves.
pub open spec fn way_x(moves: Seq<MouseMove>) -> int
    decreases moves.len(),
{
    if moves.len() == 0 {
        0
    } else {
        way_x(moves.drop_last()) + moves.last().dx
    }
}

pub open spec fn way_y(moves: Seq<MouseMove>) -> int
    decreases moves.len(),
{
    if moves.len() == 0 {
        0
    } else {
        way_y(moves.drop_last()) + moves.last().dy
    }
}

/// Are these the moves of the frame so far, in one?
pub open spec fn merges(p: Option<MergedMove>, moves: Seq<MouseMove>) -> bool {
    match p {
        None => moves.len() == 0,
        Some(m) => moves.len() > 0 && m.x == moves.last().x && m.y == moves.last().y && m.buttons
            == moves.last().buttons && m.dx == way_x(moves) && m.dy == way_y(moves),
    }
}

/// Merges the mouse moves of a frame: a mouse reports far more of them than there are
/// frames.
#[derive(Copy, Clone, Debug, PartialEq, Eq, Structural)]
pub struct MouseCoalescer {
    pub pending: Option<MergedMove>,
}

/// The nearest 64-bit number.
pub open spec fn near(n: int) -> i64 {
    if n < i64::MIN {
        i64::MIN
    } else if n > i64::MAX {
        i64::MAX
    } else {
        n as i64
    }
}

fn sum_near(a: i64, b: i32) -> (r: i64)
    ensures
        r == near(a + b),
{
    let n: i128 = a as i128 + b as i128;
    if n < i64::MIN as i128 {
        i64::MIN
    } else if n > i64::MAX as i128 {
        i64::MAX
    } else {
        n as i64
    }
}

impl MouseCoalescer {
    /// After a mouse move.
    pub open spec fn moved(self, ev: MouseMove) -> MouseCoalescer {
        let (dx, dy) = match self.pending {
            Some(p) => (p.dx as int, p.dy as int),
            None => (0, 0),
        };
        MouseCoalescer {
            pending: Some(
                MergedMove {
                    x: ev.x,
                    y: ev.y,
                    buttons: ev.buttons,
                    dx: near(dx + ev.dx),
                    dy: near(dy + ev.dy),
                },
            ),
        }
    }

    pub fn new() -> (r: MouseCoalescer)
        ensures
            r.pending is None,
    {
        MouseCoalescer { pending: None }
    }

    /// The mouse moved.
    pub fn on_move(&mut self, ev: MouseMove)
        ensures
            *final(self) == old(self).moved(ev),
    {
        let (dx, dy) = match self.pending {
            Some(p) => (p.dx, p.dy),
            None => (0i64, 0i64),
        };
        self.pending = Some(
            MergedMove {
                x: ev.x,
                y: ev.y,
                buttons: ev.buttons,
                dx: sum_near(dx, ev.dx),
                dy: sum_near(dy, ev.dy),
            },
        );
    }

    /// A frame passed. Returns what to send: at most one move.
    pub fn on_frame(&mut self) -> (r: Option<MergedMove>)
        ensures
            r == old(self).pending,
            final(self).pending is None,
    {
        let r = self.pending;
        self.pending = None;
        r
    }
}

/// Is the browser's own reaction to a mouse button suppressed? For all but the left one,
/// or the context menu and auto-scroll would come first.
pub fn suppresses_button(button: i16) -> (r: bool)
    ensures
        r == (button != 0),
{
    button != 0
}

/// The keys that the app owns when no modifier is held: the browser would walk the focus,
/// scroll, or search with them.
pub open spec fn is_owned_key(code: Seq<char>) -> bool {
    code == "Tab"@ || code == "Space"@ || code == "ArrowLeft"@ || code == "ArrowRight"@ || code
        == "ArrowUp"@ || code == "ArrowDown"@ || code == "Slash"@ || code == "Quote"@
}

/// Alt itself, which the browser would open its menu with.
pub open spec fn is_alt_key(code: Seq<char>) -> bool {
    code == "AltLeft"@ || code == "AltRight"@
}

/// Is the browser's own reaction to a key suppressed? For the owned keys without Ctrl, Alt
/// or Meta, and for Alt itself without Ctrl or Meta. Everything else stays the browser's:
/// reload, developer tools, tabs, full screen.
pub fn suppresses_key(code: &str, ctrl: bool, alt: bool, meta: bool) -> (r: bool)
    ensures
        r == ((is_alt_key(code@) && !ctrl && !meta) || (is_owned_key(code@) && !ctrl && !alt
            && !meta)),
{
    let no_modifier = !ctrl && !alt && !meta;
    let is_alt_self = text_eq(code, "AltLeft") || text_eq(code, "AltRight");
    let suppress_alt = is_alt_self && !ctrl && !meta;
    let owned_unmodified = text_eq(code, "Tab") || text_eq(code, "Space") || text_eq(
        code,
        "ArrowLeft",
    ) || text_eq(code, "ArrowRight") || text_eq(code, "ArrowUp") || text_eq(code, "ArrowDown")
        || text_eq(code, "Slash") || text_eq(code, "Quote");
    suppress_alt || (owned_unmodified && no_modifier)
}

// ---------------------------------------------------------------------------
// Laws
// ---------------------------------------------------------------------------

/// The debounce after `n` frames without an event.
pub open spec fn frames_later(d: ResizeDebounce, n: nat) -> ResizeDebounce
    decreases n,
{
    if n == 0 {
        d
    } else {
        frames_later(d, (n - 1) as nat).ticked()
    }
}

/// A size is committed by the sixth frame without a further event, not by an earlier one,
/// and by no later one again. So a continuous drag commits no intermediate size.
pub proof fn resize_commits_once(d: ResizeDebounce, size: Size, n: nat)
    ensures
        frames_later(d.resized(size), n).committed() == (if n == 5 {
            Some(size)
        } else {
            None
        }),
{
    debounce_after(d, size, n);
}

proof fn debounce_after(d: ResizeDebounce, size: Size, n: nat)
    ensures
        frames_later(d.resized(size), n) == (if n < 6 {
            ResizeDebounce { pending: Some(PendingSize { size, frames: n as u32 }) }
        } else {
            ResizeDebounce { pending: None }
        }),
    decreases n,
{
    if n > 0 {
        debounce_after(d, size, (n - 1) as nat);
    }
}

/// The coalescer after the moves of a frame.
pub open spec fn after_moves(moves: Seq<MouseMove>) -> MouseCoalescer
    decreases moves.len(),
{
    if moves.len() == 0 {
        MouseCoalescer { pending: None }
    } else {
        after_moves(moves.drop_last()).moved(moves.last())
    }
}

/// No motion is lost by merging: what is sent for a frame is the last place and the sum of
/// all ways, and nothing is sent for a frame without a move.
pub proof fn merging_loses_no_motion(moves: Seq<MouseMove>)
    requires
        moves.len() <= u32::MAX,
    ensures
        merges(after_moves(moves).pending, moves),
    decreases moves.len(),
{
    reveal_with_fuel(way_x, 2);
    reveal_with_fuel(way_y, 2);
    if moves.len() > 0 {
        merging_loses_no_motion(moves.drop_last());
        way_is_bounded(moves);
    }
}

proof fn way_is_bounded(moves: Seq<MouseMove>)
    ensures
        -(moves.len() * 0x8000_0000) <= way_x(moves) <= moves.len() * 0x8000_0000,
        -(moves.len() * 0x8000_0000) <= way_y(moves) <= moves.len() * 0x8000_0000,
    decreases moves.len(),
{
    if moves.len() > 0 {
        way_is_bounded(moves.drop_last());
    }
}

/// A resize starts the wait anew with its own size; a frame either lets a size wait one frame
/// longer or sends it on, and nothing waits behind what was sent.
pub proof fn sizes_wait_for_the_last_resize()
    ensures
        forall|d: &mut ResizeDebounce, size: Size, u: ()| #[trigger]
            call_ensures(ResizeDebounce::on_resize, (d, size), u) ==> (*final(d)).pending is Some
                && (*final(d)).pending->0.size == size && (*final(d)).pending->0.frames == 0,
        forall|d: &mut ResizeDebounce, r: Option<Size>| #[trigger]
            call_ensures(ResizeDebounce::on_frame, (d,), r) && (*d).wf() ==> {
                let p = (*d).pending;
                let q = (*final(d)).pending;
                &&& p is None ==> r is None && q is None
                &&& p is Some && p->0.frames < 5 ==> r is None && q is Some && q->0.size
                    == p->0.size && q->0.frames == p->0.frames + 1
                &&& p is Some && p->0.frames == 5 ==> r == Some(p->0.size) && q is None
            },
{
}

/// One more move adds its own way to the way so far, and its place is the place; a frame sends
/// what was gathered, once.
pub proof fn moves_add_up()
    ensures
        forall|m: &mut MouseCoalescer, ev: MouseMove, u: ()| #[trigger]
            call_ensures(MouseCoalescer::on_move, (m, ev), u) ==> {
                let p = (*m).pending;
                let q = (*final(m)).pending->0;
                let dx: int = if p is Some {
                    p->0.dx as int
                } else {
                    0
                };
                let dy: int = if p is Some {
                    p->0.dy as int
                } else {
                    0
                };
                &&& (*final(m)).pending is Some
                &&& q.x == ev.x && q.y == ev.y && q.buttons == ev.buttons
                &&& i64::MIN <= dx + ev.dx <= i64::MAX ==> q.dx == dx + ev.dx
                &&& i64::MIN <= dy + ev.dy <= i64::MAX ==> q.dy == dy + ev.dy
            },
        forall|m: &mut MouseCoalescer, r: Option<MergedMove>| #[trigger]
            call_ensures(MouseCoalescer::on_frame, (m,), r) ==> r == (*m).pending && (
            *final(m)).pending is None,
{
}

/// The browser keeps its shortcuts: nothing with Ctrl or Meta is kept from it, and with Alt
/// only Alt itself. It keeps the left button.
pub proof fn browser_keeps_its_shortcuts()
    ensures
        forall|code: &str, ctrl: bool, alt: bool, meta: bool, r: bool| #[trigger]
            call_ensures(suppresses_key, (code, ctrl, alt, meta), r) ==> {
                &&& ctrl || meta ==> !r
                &&& alt && r ==> code@ == "AltLeft"@ || code@ == "AltRight"@
                &&& !ctrl && !meta && (code@ == "AltLeft"@ || code@ == "AltRight"@) ==> r
                &&& !ctrl && !meta && !alt && (code@ == "Tab"@ || code@ == "Space"@ || code@
                    == "ArrowLeft"@ || code@ == "ArrowRight"@ || code@ == "ArrowUp"@ || code@
                    == "ArrowDown"@ || code@ == "Slash"@ || code@ == "Quote"@) ==> r
                &&& r ==> code@ == "AltLeft"@ || code@ == "AltRight"@ || code@ == "Tab"@ || code@
                    == "Space"@ || code@ == "ArrowLeft"@ || code@ == "ArrowRight"@ || code@
                    == "ArrowUp"@ || code@ == "ArrowDown"@ || code@ == "Slash"@ || code@
                    == "Quote"@
            },
        forall|button: i16, r: bool| #[trigger]
            call_ensures(suppresses_button, (button,), r) ==> (r <==> button < 0 || button > 0),
{
}

} // verus!
