//! What the worker asks of the page.
//!
//! The worker cannot touch the page. It queues actions; once per frame they are posted to
//! the main thread in one message, which turns each into a call.

use vstd::prelude::*;

use crate::cursor;
use crate::cursor::{mark_applied, take_pending, CursorChannel, GrabMode};
use crate::text;
use crate::text::text_eq;

verus! {

/// One action for the main thread.
#[derive(Copy, Clone, Debug, PartialEq, Eq, Structural)]
pub enum HostAction {
    /// Lock the pointer to the canvas and report raw motion.
    PointerLockRequest,
    /// Release the pointer.
    PointerLockRelease,
}

impl HostAction {
    pub open spec fn spec_kind(self) -> Seq<char> {
        match self {
            HostAction::PointerLockRequest => "pointer_lock_request"@,
            HostAction::PointerLockRelease => "pointer_lock_release"@,
        }
    }

    /// The kind under which the action is posted.
    pub fn kind(self) -> (r: &'static str)
        ensures
            r@ == self.spec_kind(),
    {
        match self {
            HostAction::PointerLockRequest => "pointer_lock_request",
            HostAction::PointerLockRelease => "pointer_lock_release",
        }
    }
}

/// Actions that wait for the end of the frame.
pub struct HostQueue {
    pub pending: Vec<HostAction>,
}

impl View for HostQueue {
    type V = Seq<HostAction>;

    open spec fn view(&self) -> Seq<HostAction> {
        self.pending@
    }
}

/// The kinds of actions, in order.
pub open spec fn kinds_of(actions: Seq<HostAction>) -> Seq<Seq<char>> {
    actions.map_values(|a: HostAction| a.spec_kind())
}

impl HostQueue {
    pub fn new() -> (r: HostQueue)
        ensures
            r@ == Seq::<HostAction>::empty(),
    {
        HostQueue { pending: Vec::new() }
    }

    /// Queue an action for the end of the frame.
    pub fn queue(&mut self, action: HostAction)
        ensures
            final(self)@ == old(self)@.push(action),
    {
        self.pending.push(action);
    }

    /// Take the pending actions as one message: the kinds of its items, in order. `None` if
    /// there are none, for then nothing is posted. A message that cannot be posted is
    /// dropped, not queued again.
    pub fn take_message(&mut self) -> (r: Option<Vec<&'static str>>)
        ensures
            final(self)@ == Seq::<HostAction>::empty(),
            match r {
                Some(kinds) => old(self)@.len() > 0 && text::str_views(kinds@) == kinds_of(
                    old(self)@,
                ),
                None => old(self)@.len() == 0,
            },
    {
        if self.pending.len() == 0 {
            assert(self.pending@ =~= Seq::empty());
            return None;
        }
        let kinds = encode_actions(&self.pending);
        self.pending = Vec::new();
        Some(kinds)
    }
}

/// The kinds of the items of a message that carries these actions.
pub fn encode_actions(actions: &Vec<HostAction>) -> (r: Vec<&'static str>)
    ensures
        text::str_views(r@) == kinds_of(actions@),
{
    let mut out: Vec<&'static str> = Vec::new();
    let mut i: usize = 0;
    assert(text::str_views(out@) =~= kinds_of(actions@.take(0)));
    while i < actions.len()
        invariant
            i <= actions.len(),
            text::str_views(out@) == kinds_of(actions@.take(i as int)),
        decreases actions.len() - i,
    {
        let kind = actions[i].kind();
        let ghost before = out@;
        out.push(kind);
        assert(text::str_views(out@) =~= text::str_views(before).push(kind@));
        assert(kinds_of(actions@.take(i + 1)) =~= kinds_of(actions@.take(i as int)).push(
            actions@[i as int].spec_kind(),
        ));
        i += 1;
    }
    assert(actions@.take(actions.len() as int) =~= actions@);
    out
}

// ---------------------------------------------------------------------------
// The cursor over the page
// ---------------------------------------------------------------------------

/// The action that a grab request stands for. The page can lock the pointer or leave it
/// free; it cannot confine it, and a lock is the closest it can do.
pub open spec fn grab_action(mode: GrabMode) -> HostAction {
    match mode {
        GrabMode::Free => HostAction::PointerLockRelease,
        _ => HostAction::PointerLockRequest,
    }
}

/// At the end of a frame: turn a pending grab request into an action. The page shows and
/// hides the cursor with the lock, so a visibility request needs none of its own.
pub fn queue_cursor_requests(chan: &mut CursorChannel, queue: &mut HostQueue)
    ensures
        *final(chan) == old(chan).taken(),
        final(queue)@ == (match old(chan).pending_grab {
            Some(mode) => old(queue)@.push(grab_action(mode)),
            None => old(queue)@,
        }),
{
    let (grab, _visible) = take_pending(chan);
    if let Some(mode) = grab {
        queue.queue(
            match mode {
                GrabMode::Free => HostAction::PointerLockRelease,
                _ => HostAction::PointerLockRequest,
            },
        );
    }
}

/// The browser says whether it holds the pointer: that is what was applied, whoever asked.
pub fn pointer_lock_changed(chan: &mut CursorChannel, locked: bool)
    ensures
        *final(chan) == (CursorChannel {
            applied: cursor::CursorState {
                grab: if locked {
                    GrabMode::Locked
                } else {
                    GrabMode::Free
                },
                visible: !locked,
            },
            ..*old(chan)
        }),
{
    let grab = if locked {
        GrabMode::Locked
    } else {
        GrabMode::Free
    };
    mark_applied(chan, grab, !locked);
}

// ---------------------------------------------------------------------------
// The main thread
// ---------------------------------------------------------------------------

/// What the main thread does for an item of a message.
pub enum HostCall {
    RequestPointerLock,
    ExitPointerLock,
    /// Log this and drop the item.
    Warn(String),
}

/// A `HostCall` over plain values.
pub enum HostCallView {
    RequestPointerLock,
    ExitPointerLock,
    Warn(Seq<char>),
}

impl View for HostCall {
    type V = HostCallView;

    open spec fn view(&self) -> HostCallView {
        match self {
            HostCall::RequestPointerLock => HostCallView::RequestPointerLock,
            HostCall::ExitPointerLock => HostCallView::ExitPointerLock,
            HostCall::Warn(s) => HostCallView::Warn(s@),
        }
    }
}

/// What an item of this kind calls for.
pub open spec fn call_for(kind: Option<Seq<char>>) -> HostCallView {
    match kind {
        None => HostCallView::Warn("rye_app::wasm: host_action item missing 'kind'"@),
        Some(k) => if k == "pointer_lock_request"@ {
            HostCallView::RequestPointerLock
        } else if k == "pointer_lock_release"@ {
            HostCallView::ExitPointerLock
        } else {
            HostCallView::Warn(
                "rye_app::wasm: unknown host_action kind '"@ + k + "'; dropping"@,
            )
        },
    }
}

/// The main thread's side of the pointer lock: what the worker last asked for. The browser
/// drops the lock on its own (on `Esc`, on a tab switch); then a click takes it again.
#[derive(Copy, Clone, Debug, PartialEq, Eq, Structural)]
pub struct PointerLock {
    pub want_locked: bool,
}

impl PointerLock {
    pub fn new() -> (r: PointerLock)
        ensures
            !r.want_locked,
    {
        PointerLock { want_locked: false }
    }

    /// Decide on one item of a message by its kind.
    pub fn dispatch(&mut self, kind: Option<&str>) -> (r: HostCall)
        ensures
            r@ == call_for(
                match kind {
                    Some(k) => Some(k@),
                    None => None,
                },
            ),
            final(self).want_locked == (match r@ {
                HostCallView::RequestPointerLock => true,
                HostCallView::ExitPointerLock => false,
                HostCallView::Warn(_) => old(self).want_locked,
            }),
    {
        match kind {
            None => HostCall::Warn("rye_app::wasm: host_action item missing 'kind'".to_owned()),
            Some(k) => {
                if text_eq(k, "pointer_lock_request") {
                    self.want_locked = true;
                    HostCall::RequestPointerLock
                } else if text_eq(k, "pointer_lock_release") {
                    self.want_locked = false;
                    HostCall::ExitPointerLock
                } else {
                    let mut s = "rye_app::wasm: unknown host_action kind '".to_owned();
                    s.append(k);
                    s.append("'; dropping");
                    HostCall::Warn(s)
                }
            },
        }
    }

    /// Does a click on the canvas request the lock again? Only if it is wanted and not
    /// held: a release that was asked for stays.
    pub fn click(&self, already_locked: bool) -> (r: bool)
        ensures
            r == (self.want_locked && !already_locked),
    {
        self.want_locked && !already_locked
    }
}

// ---------------------------------------------------------------------------
// Laws
// ---------------------------------------------------------------------------

/// Every action survives the trip: what is posted for it calls for just what it asks.
pub proof fn actions_survive_the_trip(action: HostAction)
    ensures
        call_for(Some(action.spec_kind())) == (match action {
            HostAction::PointerLockRequest => HostCallView::RequestPointerLock,
            HostAction::PointerLockRelease => HostCallView::ExitPointerLock,
        }),
{
    reveal_strlit("pointer_lock_request");
    reveal_strlit("pointer_lock_release");
    assert("pointer_lock_request"@[15] != "pointer_lock_release"@[15]);
}

/// A grab that the app asks for reaches the page, once: a lock for any that holds the cursor,
/// a release for the one that does not; and nothing is asked of the page where nothing is
/// pending.
pub proof fn grabs_reach_the_page()
    ensures
        forall|chan: &mut CursorChannel, queue: &mut HostQueue, u: ()| #[trigger]
            call_ensures(queue_cursor_requests, (chan, queue), u) ==> {
                let a = (*queue)@;
                let b = (*final(queue))@;
                &&& (*chan).pending_grab is None ==> b == a
                &&& (*chan).pending_grab is Some ==> b.len() == a.len() + 1 && b.drop_last() == a
                &&& (*chan).pending_grab == Some(GrabMode::Free) ==> b.last()
                    is PointerLockRelease
                &&& (*chan).pending_grab == Some(GrabMode::Confined) || (*chan).pending_grab == Some(
                    GrabMode::Locked,
                ) ==> b.last() is PointerLockRequest
                &&& (*final(chan)).pending_grab is None
            },
{
    assert forall|chan: &mut CursorChannel, queue: &mut HostQueue, u: ()| #[trigger]
        call_ensures(
            queue_cursor_requests,
            (chan, queue),
            u,
        ) && (*chan).pending_grab is Some implies (*final(queue))@.drop_last() == (*queue)@ by {
        let a = (*queue)@;
        assert(a.push(grab_action((*chan).pending_grab->0)).drop_last() =~= a);
    }
}

/// The actions of a frame go out in one message, all of them and in order, and no message goes
/// out without one.
pub proof fn actions_go_out_together()
    ensures
        forall|q: &mut HostQueue, r: Option<Vec<&'static str>>| #[trigger]
            call_ensures(HostQueue::take_message, (q,), r) ==> {
                &&& r is None <==> (*q)@.len() == 0
                &&& (*final(q))@.len() == 0
                &&& r is Some ==> r->0@.len() == (*q)@.len() && forall|i: int|
                    0 <= i < r->0@.len() ==> (#[trigger] r->0@[i])@ == (if (*q)@[i]
                        is PointerLockRequest {
                        "pointer_lock_request"@
                    } else {
                        "pointer_lock_release"@
                    })
            },
        forall|q: &mut HostQueue, action: HostAction, u: ()| #[trigger]
            call_ensures(HostQueue::queue, (q, action), u) ==> (*final(q))@.len() == (*q)@.len() + 1
                && (*final(q))@.last() == action,
{
    assert forall|q: &mut HostQueue, r: Option<Vec<&'static str>>| #[trigger]
        call_ensures(HostQueue::take_message, (q,), r) && r is Some implies r->0@.len() == (
    *q)@.len() && forall|i: int|
        0 <= i < r->0@.len() ==> (#[trigger] r->0@[i])@ == (if (*q)@[i] is PointerLockRequest {
            "pointer_lock_request"@
        } else {
            "pointer_lock_release"@
        }) by {
        let v = text::str_views(r->0@);
        let k = kinds_of((*q)@);
        assert(v.len() == k.len());
        assert forall|i: int| 0 <= i < r->0@.len() implies (#[trigger] r->0@[i])@ == (if (*q)@[i]
            is PointerLockRequest {
            "pointer_lock_request"@
        } else {
            "pointer_lock_release"@
        }) by {
            assert(v[i] == k[i]);
        }
    }
}

/// The page locks the pointer when asked to, and again upon a click while the lock is wanted
/// and lost; once it was asked to release it, no click locks it.
pub proof fn lock_is_wanted_until_released()
    ensures
        forall|p: &mut PointerLock, kind: Option<&str>, r: HostCall| #[trigger]
            call_ensures(PointerLock::dispatch, (p, kind), r) ==> {
                &&& kind is Some && kind->0@ == "pointer_lock_request"@ ==> r is RequestPointerLock
                    && (*final(p)).want_locked
                &&& kind is Some && kind->0@ == "pointer_lock_release"@ ==> r is ExitPointerLock
                    && !(*final(p)).want_locked
                &&& kind is None || (kind->0@ != "pointer_lock_request"@ && kind->0@
                    != "pointer_lock_release"@) ==> r is Warn && (*final(p)).want_locked
                    == (*p).want_locked
            },
        forall|p: &PointerLock, already_locked: bool, r: bool| #[trigger]
            call_ensures(PointerLock::click, (p, already_locked), r) ==> {
                &&& already_locked ==> !r
                &&& !p.want_locked ==> !r
                &&& p.want_locked && !already_locked ==> r
            },
        forall|chan: &mut CursorChannel, locked: bool, u: ()| #[trigger]
            call_ensures(pointer_lock_changed, (chan, locked), u) ==> {
                &&& locked ==> (*final(chan)).applied.grab is Locked && !(
                *final(chan)).applied.visible
                &&& !locked ==> (*final(chan)).applied.grab is Free && (
                *final(chan)).applied.visible
                &&& (*final(chan)).pending_grab == (*chan).pending_grab
            },
{
    reveal_strlit("pointer_lock_request");
    reveal_strlit("pointer_lock_release");
    assert("pointer_lock_request"@[15] != "pointer_lock_release"@[15]);
    assert forall|p: &mut PointerLock, kind: Option<&str>, r: HostCall| #[trigger]
        call_ensures(PointerLock::dispatch, (p, kind), r) implies {
        &&& kind is Some && kind->0@ == "pointer_lock_request"@ ==> r is RequestPointerLock
            && (*final(p)).want_locked
        &&& kind is Some && kind->0@ == "pointer_lock_release"@ ==> r is ExitPointerLock
            && !(*final(p)).want_locked
        &&& kind is None || (kind->0@ != "pointer_lock_request"@ && kind->0@
            != "pointer_lock_release"@) ==> r is Warn && (*final(p)).want_locked
            == (*p).want_locked
    } by {
        assert(r@ is Warn <==> r is Warn);
    }
}

/// An action goes over by its own word.
pub proof fn actions_have_their_own_words()
    ensures
        forall|a: HostAction, r: &'static str| #[trigger]
            call_ensures(HostAction::kind, (a,), r) ==> (a is PointerLockRequest ==> r@
                == "pointer_lock_request"@) && (a is PointerLockRelease ==> r@
                == "pointer_lock_release"@),
        forall|actions: &Vec<HostAction>, r: Vec<&'static str>| #[trigger]
            call_ensures(encode_actions, (actions,), r) ==> r@.len() == actions@.len() && forall|
                i: int,
            |
                0 <= i < r@.len() ==> (#[trigger] r@[i])@ == (if actions@[i] is PointerLockRequest {
                    "pointer_lock_request"@
                } else {
                    "pointer_lock_release"@
                }),
{
    assert forall|actions: &Vec<HostAction>, r: Vec<&'static str>| #[trigger]
        call_ensures(encode_actions, (actions,), r) implies r@.len() == actions@.len() && forall|
        i: int,
    |
        0 <= i < r@.len() ==> (#[trigger] r@[i])@ == (if actions@[i] is PointerLockRequest {
            "pointer_lock_request"@
        } else {
            "pointer_lock_release"@
        }) by {
        let v = text::str_views(r@);
        let k = kinds_of(actions@);
        assert(v.len() == k.len());
        assert forall|i: int| 0 <= i < r@.len() implies (#[trigger] r@[i])@ == (if actions@[i]
            is PointerLockRequest {
            "pointer_lock_request"@
        } else {
            "pointer_lock_release"@
        }) by {
            assert(v[i] == k[i]);
        }
    }
}

} // verus!
