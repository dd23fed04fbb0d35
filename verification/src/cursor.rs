//! Cursor grab and visibility requests from the app to the runner.
//!
//! The app asks from anywhere; the runner takes what is pending once per redraw, applies it
//! to the window, and records what it applied. Grab mode and visibility are independent.

use vstd::prelude::*;

verus! {

/// Cursor confinement modes.
#[derive(Copy, Clone, Debug, PartialEq, Eq, Structural)]
pub enum GrabMode {
    /// Cursor moves freely across the desktop.
    Free,
    /// Cursor confined inside the window but otherwise moves normally.
    Confined,
    /// Cursor pinned at the window center; movement reported as raw device motion.
    Locked,
}

impl Default for GrabMode {
    fn default() -> (r: GrabMode)
        ensures
            r == GrabMode::Free,
    {
        GrabMode::Free
    }
}

/// Snapshot of the last cursor state the runner applied.
#[derive(Copy, Clone, Debug, PartialEq, Eq, Structural)]
pub struct CursorState {
    pub grab: GrabMode,
    pub visible: bool,
}

impl Default for CursorState {
    fn default() -> (r: CursorState)
        ensures
            r == (CursorState { grab: GrabMode::Free, visible: false }),
    {
        CursorState { grab: GrabMode::Free, visible: false }
    }
}

impl CursorState {
    /// What the runner uses before any request lands: released and visible.
    pub fn released() -> (r: CursorState)
        ensures
            r == (CursorState { grab: GrabMode::Free, visible: true }),
    {
        CursorState { grab: GrabMode::Free, visible: true }
    }
}

/// The request channel: what is pending, and what was last applied.
#[derive(Copy, Clone, Debug, PartialEq, Eq, Structural)]
pub struct CursorChannel {
    pub pending_grab: Option<GrabMode>,
    pub pending_visible: Option<bool>,
    pub pending_warp_center: bool,
    pub applied: CursorState,
}

impl CursorChannel {
    pub fn new() -> (r: CursorChannel)
        ensures
            r == (CursorChannel {
                pending_grab: None,
                pending_visible: None,
                pending_warp_center: false,
                applied: CursorState { grab: GrabMode::Free, visible: true },
            }),
    {
        CursorChannel {
            pending_grab: None,
            pending_visible: None,
            pending_warp_center: false,
            applied: CursorState::released(),
        }
    }
}

/// Request the runner change the grab mode on its next redraw.
pub fn request_grab_mode(chan: &mut CursorChannel, mode: GrabMode)
    ensures
        *final(chan) == old(chan).asked_grab(mode),
{
    chan.pending_grab = Some(mode);
}

/// Request the runner show or hide the cursor on its next redraw.
pub fn request_cursor_visible(chan: &mut CursorChannel, visible: bool)
    ensures
        *final(chan) == old(chan).asked_visible(visible),
{
    chan.pending_visible = Some(visible);
}

/// Request the runner warp the cursor to the window's center on its next redraw. Use it
/// when releasing the grab, so that the cursor reappears in a predictable spot.
pub fn request_warp_to_center(chan: &mut CursorChannel)
    ensures
        *final(chan) == old(chan).asked_warp(),
{
    chan.pending_warp_center = true;
}

/// Request the mouse-look pair: locked and hidden.
pub fn request_grab(chan: &mut CursorChannel)
    ensures
        *final(chan) == old(chan).asked_grab(GrabMode::Locked).asked_visible(false),
{
    request_grab_mode(chan, GrabMode::Locked);
    request_cursor_visible(chan, false);
}

/// Request the conventional UI pair: free and visible.
pub fn request_release(chan: &mut CursorChannel)
    ensures
        *final(chan) == old(chan).asked_grab(GrabMode::Free).asked_visible(true),
{
    request_grab_mode(chan, GrabMode::Free);
    request_cursor_visible(chan, true);
}

/// Read and clear the pending grab and visibility changes.
pub fn take_pending(chan: &mut CursorChannel) -> (r: (Option<GrabMode>, Option<bool>))
    ensures
        r == (old(chan).pending_grab, old(chan).pending_visible),
        *final(chan) == old(chan).taken(),
{
    let r = (chan.pending_grab, chan.pending_visible);
    chan.pending_grab = None;
    chan.pending_visible = None;
    r
}

/// Read and clear the pending warp.
pub fn take_pending_warp_center(chan: &mut CursorChannel) -> (r: bool)
    ensures
        r == old(chan).pending_warp_center,
        *final(chan) == old(chan).warp_taken(),
{
    let r = chan.pending_warp_center;
    chan.pending_warp_center = false;
    r
}

/// Record what the runner just applied.
pub fn mark_applied(chan: &mut CursorChannel, grab: GrabMode, visible: bool)
    ensures
        *final(chan) == (CursorChannel { applied: CursorState { grab, visible }, ..*old(chan) }),
{
    chan.applied = CursorState { grab, visible };
}

/// What the runner has to do to the window's cursor, in this order.
#[derive(Copy, Clone, Debug, PartialEq, Eq, Structural)]
pub struct CursorOrders {
    pub grab: Option<GrabMode>,
    pub visible: Option<bool>,
    pub warp_center: bool,
}

/// Read and clear everything that is pending, once per redraw.
pub fn take_orders(chan: &mut CursorChannel) -> (r: CursorOrders)
    ensures
        r == old(chan).orders(),
        *final(chan) == old(chan).taken().warp_taken(),
{
    let (grab, visible) = take_pending(chan);
    let warp_center = take_pending_warp_center(chan);
    CursorOrders { grab, visible, warp_center }
}

/// Record that the orders were carried out. Not every window can grab the cursor: where it
/// refused, the grab is what it was.
pub fn settle_orders(chan: &mut CursorChannel, orders: CursorOrders, grab_accepted: bool)
    ensures
        *final(chan) == old(chan).settled(orders, grab_accepted),
{
    let grab = match orders.grab {
        Some(mode) if grab_accepted => mode,
        _ => chan.applied.grab,
    };
    let visible = match orders.visible {
        Some(visible) => visible,
        None => chan.applied.visible,
    };
    mark_applied(chan, grab, visible);
}

/// Last-applied cursor state.
pub fn current_state(chan: &CursorChannel) -> (r: CursorState)
    ensures
        r == chan.applied,
{
    chan.applied
}

// ---------------------------------------------------------------------------
// Laws
// ---------------------------------------------------------------------------

impl CursorChannel {
    /// After a grab request.
    pub open spec fn asked_grab(self, mode: GrabMode) -> CursorChannel {
        CursorChannel { pending_grab: Some(mode), ..self }
    }

    /// After a visibility request.
    pub open spec fn asked_visible(self, visible: bool) -> CursorChannel {
        CursorChannel { pending_visible: Some(visible), ..self }
    }

    /// After a warp request.
    pub open spec fn asked_warp(self) -> CursorChannel {
        CursorChannel { pending_warp_center: true, ..self }
    }

    /// After the grab and visibility requests have been taken.
    pub open spec fn taken(self) -> CursorChannel {
        CursorChannel { pending_grab: None, pending_visible: None, ..self }
    }

    /// After the warp request has been taken.
    pub open spec fn warp_taken(self) -> CursorChannel {
        CursorChannel { pending_warp_center: false, ..self }
    }

    /// What is pending.
    pub open spec fn orders(self) -> CursorOrders {
        CursorOrders {
            grab: self.pending_grab,
            visible: self.pending_visible,
            warp_center: self.pending_warp_center,
        }
    }

    /// After orders were carried out.
    pub open spec fn settled(self, orders: CursorOrders, grab_accepted: bool) -> CursorChannel {
        CursorChannel {
            applied: CursorState {
                grab: match orders.grab {
                    Some(mode) if grab_accepted => mode,
                    _ => self.applied.grab,
                },
                visible: match orders.visible {
                    Some(visible) => visible,
                    None => self.applied.visible,
                },
            },
            ..self
        }
    }
}

/// What was asked for last is what is applied at the next redraw, and then nothing is left
/// to do; a redraw without requests changes nothing.
pub proof fn requests_reach_the_cursor(chan: CursorChannel, mode: GrabMode, visible: bool)
    ensures
        ({
            let asked = chan.asked_grab(mode).asked_visible(visible).asked_warp();
            let done = asked.taken().warp_taken().settled(asked.orders(), true);
            let again = done.taken().warp_taken().settled(done.orders(), true);
            &&& asked.orders() == (CursorOrders {
                grab: Some(mode),
                visible: Some(visible),
                warp_center: true,
            })
            &&& done.applied == (CursorState { grab: mode, visible })
            &&& done.orders() == (CursorOrders { grab: None, visible: None, warp_center: false })
            &&& again == done
        }),
{
}

/// Carrying orders out does not lose what is asked for meanwhile.
pub proof fn later_requests_stay_pending(
    chan: CursorChannel,
    orders: CursorOrders,
    grab_accepted: bool,
)
    ensures
        chan.settled(orders, grab_accepted).orders() == chan.orders(),
{
}

/// A request is seen once, whatever was pending before: of several the latest counts, and
/// taking it leaves nothing to take.
pub proof fn latest_request_is_taken_once(chan: CursorChannel, first: GrabMode, latest: GrabMode)
    ensures
        chan.asked_grab(first).asked_grab(latest).pending_grab == Some(latest),
        chan.asked_grab(latest).taken().pending_grab is None,
        chan.asked_warp().pending_warp_center,
        !chan.asked_warp().warp_taken().pending_warp_center,
{
}

/// Grab mode, visibility and warp are independent: a request of one leaves the others
/// pending as they were, and no request touches what was applied.
pub proof fn requests_are_independent(chan: CursorChannel, mode: GrabMode, visible: bool)
    ensures
        chan.asked_grab(mode).pending_visible == chan.pending_visible,
        chan.asked_visible(visible).pending_grab == chan.pending_grab,
        chan.asked_grab(mode).asked_visible(visible) == chan.asked_visible(visible).asked_grab(
            mode,
        ),
        chan.asked_warp().taken() == chan.taken().asked_warp(),
        chan.asked_grab(mode).asked_visible(visible).asked_warp().taken().warp_taken().applied
            == chan.applied,
{
}

/// Requests ask for what they say, and nothing else: a grab locks and hides, a release frees and
/// shows, and what is asked for is what is taken, once.
pub proof fn requests_ask_for_what_they_say()
    ensures
        forall|c: &mut CursorChannel, u: ()| #[trigger]
            call_ensures(request_grab, (c,), u) ==> final(c).pending_grab == Some(GrabMode::Locked)
                && final(c).pending_visible == Some(false) && final(c).pending_warp_center
                == c.pending_warp_center && final(c).applied == c.applied,
        forall|c: &mut CursorChannel, u: ()| #[trigger]
            call_ensures(request_release, (c,), u) ==> final(c).pending_grab == Some(GrabMode::Free)
                && final(c).pending_visible == Some(true) && final(c).pending_warp_center
                == c.pending_warp_center && final(c).applied == c.applied,
        forall|c: &mut CursorChannel, mode: GrabMode, u: ()| #[trigger]
            call_ensures(request_grab_mode, (c, mode), u) ==> final(c).pending_grab == Some(mode)
                && final(c).pending_visible == c.pending_visible && final(c).pending_warp_center
                == c.pending_warp_center && final(c).applied == c.applied,
        forall|c: &mut CursorChannel, visible: bool, u: ()| #[trigger]
            call_ensures(request_cursor_visible, (c, visible), u) ==> final(c).pending_visible
                == Some(visible) && final(c).pending_grab == c.pending_grab
                && final(c).pending_warp_center == c.pending_warp_center && final(c).applied
                == c.applied,
        forall|c: &mut CursorChannel, u: ()| #[trigger]
            call_ensures(request_warp_to_center, (c,), u) ==> final(c).pending_warp_center
                && final(c).pending_grab == c.pending_grab && final(c).pending_visible
                == c.pending_visible && final(c).applied == c.applied,
        forall|c: &mut CursorChannel, r: CursorOrders| #[trigger]
            call_ensures(take_orders, (c,), r) ==> r.grab == c.pending_grab && r.visible
                == c.pending_visible && r.warp_center == c.pending_warp_center
                && final(c).pending_grab is None && final(c).pending_visible is None
                && !final(c).pending_warp_center && final(c).applied == c.applied,
        forall|c: &mut CursorChannel, r: (Option<GrabMode>, Option<bool>)| #[trigger]
            call_ensures(take_pending, (c,), r) ==> r.0 == c.pending_grab && r.1
                == c.pending_visible && final(c).pending_grab is None
                && final(c).pending_visible is None && final(c).pending_warp_center
                == c.pending_warp_center && final(c).applied == c.applied,
        forall|c: &mut CursorChannel, r: bool| #[trigger]
            call_ensures(take_pending_warp_center, (c,), r) ==> r == c.pending_warp_center
                && !final(c).pending_warp_center && final(c).pending_grab == c.pending_grab
                && final(c).pending_visible == c.pending_visible,
{
}

/// The state that is read is what was carried out: a grab only where the window took it, the
/// visibility whenever it was ordered, and what was not ordered as it was.
pub proof fn state_is_what_was_carried_out()
    ensures
        forall|c: &mut CursorChannel, orders: CursorOrders, accepted: bool, u: ()| #[trigger]
            call_ensures(settle_orders, (c, orders, accepted), u) ==> {
                &&& orders.grab is Some && accepted ==> final(c).applied.grab == orders.grab->0
                &&& orders.grab is None || !accepted ==> final(c).applied.grab == c.applied.grab
                &&& orders.visible is Some ==> final(c).applied.visible == orders.visible->0
                &&& orders.visible is None ==> final(c).applied.visible == c.applied.visible
                &&& final(c).pending_grab == c.pending_grab && final(c).pending_visible
                    == c.pending_visible && final(c).pending_warp_center == c.pending_warp_center
            },
        forall|c: &mut CursorChannel, grab: GrabMode, visible: bool, u: ()| #[trigger]
            call_ensures(mark_applied, (c, grab, visible), u) ==> final(c).applied.grab == grab
                && final(c).applied.visible == visible && final(c).pending_grab == c.pending_grab
                && final(c).pending_visible == c.pending_visible,
        forall|c: &CursorChannel, r: CursorState| #[trigger]
            call_ensures(current_state, (c,), r) ==> r.grab == c.applied.grab && r.visible
                == c.applied.visible,
{
}

/// A fresh channel has nothing pending, and the cursor is free and shown.
pub proof fn fresh_cursor_is_free()
    ensures
        forall|r: CursorChannel| #[trigger]
            call_ensures(CursorChannel::new, (), r) ==> r.pending_grab is None
                && r.pending_visible is None && !r.pending_warp_center && r.applied.grab is Free
                && r.applied.visible,
        forall|r: CursorState| #[trigger]
            call_ensures(CursorState::released, (), r) ==> r.grab is Free && r.visible,
{
}

} // verus!
