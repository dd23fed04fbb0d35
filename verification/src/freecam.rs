//! First-person camera preset: when the cursor is grabbed, and what moves.
//!
//! The camera's position and the look controller are the host's; `P` is whatever the host
//! keeps a position in.

use vstd::prelude::*;

use crate::cursor;
use crate::cursor::{request_grab, request_release, request_warp_to_center, CursorChannel};
use crate::text::text_eq;

verus! {

/// How the Alt modifier influences the cursor grab.
#[derive(Clone, Copy, Debug, PartialEq, Eq, Structural)]
pub enum CursorMode {
    /// Cursor released while Alt is held, grabbed again when Alt is released.
    Hold,
    /// Press Alt to flip the grab, press again to flip back. Release does nothing.
    Toggle,
}

impl Default for CursorMode {
    fn default() -> (r: CursorMode)
        ensures
            r == CursorMode::Toggle,
    {
        CursorMode::Toggle
    }
}

impl CursorMode {
    pub open spec fn spec_from_token(s: Seq<char>) -> Option<CursorMode> {
        if s == "hold"@ {
            Some(CursorMode::Hold)
        } else if s == "toggle"@ {
            Some(CursorMode::Toggle)
        } else {
            None
        }
    }

    pub open spec fn spec_token(self) -> Seq<char> {
        match self {
            CursorMode::Hold => "hold"@,
            CursorMode::Toggle => "toggle"@,
        }
    }

    /// Parse a console token.
    pub fn from_token(s: &str) -> (r: Option<CursorMode>)
        ensures
            r == CursorMode::spec_from_token(s@),
    {
        if text_eq(s, "hold") {
            Some(CursorMode::Hold)
        } else if text_eq(s, "toggle") {
            Some(CursorMode::Toggle)
        } else {
            None
        }
    }

    /// Lowercase token, as `from_token` reads it.
    pub fn token(self) -> (r: &'static str)
        ensures
            r@ == self.spec_token(),
    {
        match self {
            CursorMode::Hold => "hold",
            CursorMode::Toggle => "toggle",
        }
    }
}

/// Every mode is read back from its token.
pub proof fn cursor_mode_round_trips(mode: CursorMode)
    ensures
        CursorMode::spec_from_token(mode.spec_token()) == Some(mode),
{
    reveal_strlit("hold");
    reveal_strlit("toggle");
    assert("hold"@.len() != "toggle"@.len());
}

/// Which of the camera's motions run this frame.
#[derive(Clone, Copy, Debug, PartialEq, Eq, Structural)]
pub struct Motion {
    /// Mouse-look.
    pub look: bool,
    /// Keyboard translation.
    pub translate: bool,
}

/// The camera preset's state.
#[derive(Clone, Copy, Debug)]
pub struct Freecam<P> {
    /// World-space position; seeded on entry, kept on exit.
    pub position: P,
    /// Does the look controller read raw mouse deltas? Free to change; the next frame of an
    /// active camera sets it to the grab again.
    pub use_raw_delta: bool,
    pub active: bool,
    pub cursor_grabbed: bool,
    pub cursor_mode: CursorMode,
}

/// What a change of the grab asks of the cursor. On release the cursor reappears at the
/// window's center, where the user was aiming.
pub open spec fn regrabbed(chan: CursorChannel, grabbed: bool) -> CursorChannel {
    if grabbed {
        chan.asked_grab(cursor::GrabMode::Locked).asked_visible(false)
    } else {
        chan.asked_grab(cursor::GrabMode::Free).asked_visible(true).asked_warp()
    }
}

impl<P> Freecam<P> {
    /// The cursor is grabbed only while active.
    pub open spec fn wf(&self) -> bool {
        self.cursor_grabbed ==> self.active
    }

    /// With the grab set.
    pub open spec fn with_grab(self, grabbed: bool) -> Freecam<P> {
        Freecam { cursor_grabbed: grabbed, use_raw_delta: grabbed, ..self }
    }

    /// The grab that an Alt event leaves.
    pub open spec fn grab_after_alt(self, pressed: bool) -> bool {
        if !self.active {
            self.cursor_grabbed
        } else {
            match self.cursor_mode {
                CursorMode::Hold => !pressed,
                CursorMode::Toggle => if pressed {
                    !self.cursor_grabbed
                } else {
                    self.cursor_grabbed
                },
            }
        }
    }

    /// The state after an Alt event. An event that does not change the grab changes nothing.
    pub open spec fn after_alt(self, pressed: bool) -> Freecam<P> {
        if self.grab_after_alt(pressed) == self.cursor_grabbed {
            self
        } else {
            self.with_grab(self.grab_after_alt(pressed))
        }
    }

    /// The state after entering or leaving the mode.
    pub open spec fn with_active(self, active: bool, position: P) -> Freecam<P> {
        if active == self.active {
            self
        } else if active {
            Freecam { active, position, ..self.with_grab(true) }
        } else {
            Freecam { active, ..self.with_grab(false) }
        }
    }

    /// An inactive camera at `origin`.
    pub fn new(origin: P) -> (r: Freecam<P>)
        ensures
            r.wf(),
            r == (Freecam {
                position: origin,
                use_raw_delta: false,
                active: false,
                cursor_grabbed: false,
                cursor_mode: CursorMode::Toggle,
            }),
    {
        Freecam {
            position: origin,
            use_raw_delta: false,
            active: false,
            cursor_grabbed: false,
            cursor_mode: CursorMode::default(),
        }
    }

    /// Builder: override the Alt-cursor mode.
    pub fn with_cursor_mode(self, mode: CursorMode) -> (r: Freecam<P>)
        ensures
            r == (Freecam { cursor_mode: mode, ..self }),
            self.wf() ==> r.wf(),
    {
        let mut r = self;
        r.cursor_mode = mode;
        r
    }

    /// Current Alt-cursor mode.
    pub fn cursor_mode(&self) -> (r: CursorMode)
        ensures
            r == self.cursor_mode,
    {
        self.cursor_mode
    }

    /// Switch the Alt-cursor mode. Changes only how future Alt events are read, not the
    /// current grab.
    pub fn set_cursor_mode(&mut self, mode: CursorMode)
        ensures
            *final(self) == (Freecam { cursor_mode: mode, ..*old(self) }),
            old(self).wf() ==> final(self).wf(),
    {
        self.cursor_mode = mode;
    }

    /// Is this the active camera mode?
    pub fn active(&self) -> (r: bool)
        ensures
            r == self.active,
    {
        self.active
    }

    /// Is the cursor grabbed? Never while inactive.
    pub fn cursor_grabbed(&self) -> (r: bool)
        ensures
            r == self.cursor_grabbed,
    {
        self.cursor_grabbed
    }

    /// Enter or leave the mode. Entering starts from the camera's present position, grabs
    /// and hides the cursor; leaving releases and shows it, and keeps the pose. Setting
    /// what is set already does nothing.
    pub fn set_active(&mut self, chan: &mut CursorChannel, active: bool, current_camera_pos: P)
        requires
            old(self).wf(),
        ensures
            final(self).wf(),
            *final(self) == old(self).with_active(active, current_camera_pos),
            *final(chan) == (if active == old(self).active {
                *old(chan)
            } else if active {
                old(chan).asked_grab(cursor::GrabMode::Locked).asked_visible(false)
            } else {
                old(chan).asked_grab(cursor::GrabMode::Free).asked_visible(true)
            }),
    {
        if active == self.active {
            return;
        }
        self.active = active;
        if active {
            self.position = current_camera_pos;
            self.cursor_grabbed = true;
            self.use_raw_delta = true;
            request_grab(chan);
        } else {
            self.cursor_grabbed = false;
            self.use_raw_delta = false;
            request_release(chan);
        }
    }

    fn regrab(&mut self, chan: &mut CursorChannel, grabbed: bool)
        ensures
            *final(self) == old(self).with_grab(grabbed),
            *final(chan) == regrabbed(*old(chan), grabbed),
    {
        self.cursor_grabbed = grabbed;
        self.use_raw_delta = grabbed;
        if grabbed {
            request_grab(chan);
        } else {
            request_release(chan);
            request_warp_to_center(chan);
        }
    }

    /// Apply an Alt key event. With `Hold` the cursor is free while Alt is down; with
    /// `Toggle` a press flips the grab and a release is ignored. Nothing while inactive.
    pub fn on_alt(&mut self, chan: &mut CursorChannel, pressed: bool)
        requires
            old(self).wf(),
        ensures
            final(self).wf(),
            *final(self) == old(self).after_alt(pressed),
            *final(chan) == (if old(self).grab_after_alt(pressed) == old(self).cursor_grabbed {
                *old(chan)
            } else {
                regrabbed(*old(chan), old(self).grab_after_alt(pressed))
            }),
    {
        if !self.active {
            return;
        }
        let target_grabbed = match self.cursor_mode {
            CursorMode::Hold => !pressed,
            CursorMode::Toggle => {
                if !pressed {
                    return;
                }
                !self.cursor_grabbed
            },
        };
        if target_grabbed == self.cursor_grabbed {
            return;
        }
        self.regrab(chan, target_grabbed);
    }

    /// Flip the cursor grab, whatever the mode. Nothing while inactive.
    pub fn toggle_cursor_grab(&mut self, chan: &mut CursorChannel)
        requires
            old(self).wf(),
        ensures
            final(self).wf(),
            if old(self).active {
                *final(self) == old(self).with_grab(!old(self).cursor_grabbed) && *final(chan)
                    == regrabbed(*old(chan), !old(self).cursor_grabbed)
            } else {
                *final(self) == *old(self) && *final(chan) == *old(chan)
            },
    {
        if !self.active {
            return;
        }
        let grabbed = !self.cursor_grabbed;
        self.regrab(chan, grabbed);
    }

    /// Begin a frame: what moves in it. Looking needs the grab, so that a cursor released
    /// for the UI does not drag the camera; the keyboard moves it whenever it is active. The
    /// look controller of an active camera then reads raw deltas exactly while the cursor is
    /// grabbed.
    pub fn motion(&mut self) -> (r: Motion)
        ensures
            r == (Motion {
                look: old(self).active && old(self).cursor_grabbed,
                translate: old(self).active,
            }),
            *final(self) == (if old(self).active {
                old(self).with_grab(old(self).cursor_grabbed)
            } else {
                *old(self)
            }),
    {
        if self.active {
            self.use_raw_delta = self.cursor_grabbed;
        }
        Motion { look: self.active && self.cursor_grabbed, translate: self.active }
    }
}

// ---------------------------------------------------------------------------
// Laws
// ---------------------------------------------------------------------------

/// In hold mode the cursor is free exactly while Alt is down, whatever it was before; in
/// toggle mode two presses, each with its release, leave the grab as it was.
pub proof fn alt_contract<P>(cam: Freecam<P>, pressed: bool)
    requires
        cam.wf(),
        cam.active,
    ensures
        cam.cursor_mode is Hold ==> cam.grab_after_alt(pressed) == !pressed,
        cam.cursor_mode is Toggle ==> {
            let one = cam.after_alt(true);
            let up = one.after_alt(false);
            let two = up.after_alt(true);
            let end = two.after_alt(false);
            end == cam.with_grab(cam.cursor_grabbed) && up == one && one.cursor_grabbed
                != cam.cursor_grabbed
        },
{
}

/// Entering twice is entering once; leaving and coming back starts from the position that
/// is then given, and in between the old one is kept.
pub proof fn activation_contract<P>(cam: Freecam<P>, first: P, second: P)
    requires
        cam.wf(),
        !cam.active,
    ensures
        cam.with_active(true, first).with_active(true, second) == cam.with_active(true, first),
        cam.with_active(true, first).position == first,
        cam.with_active(true, first).with_active(false, second).position == first,
        !cam.with_active(true, first).with_active(false, second).cursor_grabbed,
        cam.with_active(true, first).with_active(false, second).with_active(true, second).position
            == second,
{
}

/// The camera takes the cursor while it is active, and gives it back when it is not: activating
/// it starts at the place that is given and asks for a grab; deactivating frees the cursor; to
/// ask for what is so already changes nothing.
pub proof fn activation_takes_the_cursor<P: Copy>()
    ensures
        forall|cam: &mut Freecam<P>, chan: &mut CursorChannel, active: bool, at: P, u: ()| #[trigger]
            call_ensures(Freecam::<P>::set_active, (cam, chan, active, at), u) ==> {
                &&& final(cam).active == active
                &&& final(cam).cursor_mode == cam.cursor_mode
                &&& active == cam.active ==> *final(cam) == *cam && *final(chan) == *chan
                &&& active && !cam.active ==> final(cam).position == at && final(cam).cursor_grabbed
                    && final(cam).use_raw_delta && final(chan).pending_grab == Some(
                    cursor::GrabMode::Locked,
                ) && final(chan).pending_visible == Some(false)
                &&& !active && cam.active ==> final(cam).position == cam.position
                    && !final(cam).cursor_grabbed && !final(cam).use_raw_delta
                    && final(chan).pending_grab == Some(cursor::GrabMode::Free)
                    && final(chan).pending_visible == Some(true)
            },
{
}

/// Alt frees the cursor and takes it back, while the camera is active: held down, or with every
/// press, as its mode says. Whatever frees or takes it asks for just that of the window, and the
/// camera looks around by raw motion exactly while the cursor is taken.
pub proof fn alt_frees_the_cursor<P: Copy>()
    ensures
        forall|cam: &mut Freecam<P>, chan: &mut CursorChannel, pressed: bool, u: ()| #[trigger]
            call_ensures(Freecam::<P>::on_alt, (cam, chan, pressed), u) ==> {
                let was = cam.cursor_grabbed;
                let now = final(cam).cursor_grabbed;
                &&& !cam.active ==> *final(cam) == *cam && *final(chan) == *chan
                &&& cam.active && cam.cursor_mode is Hold ==> now == !pressed
                &&& cam.active && cam.cursor_mode is Toggle && pressed ==> now == !was
                &&& cam.active && cam.cursor_mode is Toggle && !pressed ==> now == was
                &&& now == was ==> *final(chan) == *chan
                &&& now != was ==> final(cam).use_raw_delta == now
                &&& now && !was ==> final(chan).pending_grab == Some(cursor::GrabMode::Locked)
                    && final(chan).pending_visible == Some(false)
                &&& !now && was ==> final(chan).pending_grab == Some(cursor::GrabMode::Free)
                    && final(chan).pending_visible == Some(true) && final(chan).pending_warp_center
                &&& final(cam).active == cam.active && final(cam).position == cam.position
                    && final(cam).cursor_mode == cam.cursor_mode
            },
        forall|cam: &mut Freecam<P>, chan: &mut CursorChannel, u: ()| #[trigger]
            call_ensures(Freecam::<P>::toggle_cursor_grab, (cam, chan), u) ==> {
                &&& !cam.active ==> *final(cam) == *cam && *final(chan) == *chan
                &&& cam.active ==> final(cam).cursor_grabbed == !cam.cursor_grabbed
                    && final(cam).use_raw_delta == final(cam).cursor_grabbed
                &&& cam.active && !cam.cursor_grabbed ==> final(chan).pending_grab == Some(
                    cursor::GrabMode::Locked,
                ) && final(chan).pending_visible == Some(false)
                &&& cam.active && cam.cursor_grabbed ==> final(chan).pending_grab == Some(
                    cursor::GrabMode::Free,
                ) && final(chan).pending_visible == Some(true)
            },
        forall|cam: &mut Freecam<P>, r: Motion| #[trigger]
            call_ensures(Freecam::<P>::motion, (cam,), r) ==> {
                &&& r.translate == cam.active
                &&& r.look <==> cam.active && cam.cursor_grabbed
                &&& cam.active ==> final(cam).use_raw_delta == cam.cursor_grabbed
                &&& final(cam).cursor_grabbed == cam.cursor_grabbed && final(cam).active
                    == cam.active && final(cam).position == cam.position
            },
{
}

/// A mode is read from its own word, whatever the mode, and from no other; a camera has the mode
/// that it was given, and that changes nothing else.
pub proof fn modes_are_read_and_kept<P>()
    ensures
        forall|s: &str, r: Option<CursorMode>| #[trigger]
            call_ensures(CursorMode::from_token, (s,), r) ==> {
                &&& r == Some(CursorMode::Hold) <==> s@ == "hold"@
                &&& r == Some(CursorMode::Toggle) <==> s@ == "toggle"@
            },
        forall|m: CursorMode, r: &'static str| #[trigger]
            call_ensures(CursorMode::token, (m,), r) ==> (m is Hold ==> r@ == "hold"@) && (
            m is Toggle ==> r@ == "toggle"@),
        forall|cam: &mut Freecam<P>, mode: CursorMode, u: ()| #[trigger]
            call_ensures(Freecam::<P>::set_cursor_mode, (cam, mode), u) ==> final(cam).cursor_mode
                == mode && final(cam).active == cam.active && final(cam).cursor_grabbed
                == cam.cursor_grabbed && final(cam).position == cam.position,
        forall|cam: Freecam<P>, mode: CursorMode, r: Freecam<P>| #[trigger]
            call_ensures(Freecam::<P>::with_cursor_mode, (cam, mode), r) ==> r.cursor_mode == mode
                && r.active == cam.active && r.cursor_grabbed == cam.cursor_grabbed && r.position
                == cam.position,
        forall|cam: &Freecam<P>, r: bool| #[trigger]
            call_ensures(Freecam::<P>::active, (cam,), r) ==> r == cam.active,
        forall|cam: &Freecam<P>, r: bool| #[trigger]
            call_ensures(Freecam::<P>::cursor_grabbed, (cam,), r) ==> r == cam.cursor_grabbed,
        forall|origin: P, r: Freecam<P>| #[trigger]
            call_ensures(Freecam::<P>::new, (origin,), r) ==> r.position == origin && !r.active
                && !r.cursor_grabbed && r.cursor_mode is Toggle,
{
    reveal_strlit("hold");
    reveal_strlit("toggle");
    assert("hold"@.len() == 4 && "toggle"@.len() == 6);
}

} // verus!
