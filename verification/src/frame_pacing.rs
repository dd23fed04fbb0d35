//! Frame pacing: the target frame period, the vsync switch, and how to wait for a deadline.
//! Times are in nanoseconds.

use vstd::prelude::*;

verus! {

/// 60 frames per second.
pub const DEFAULT_PERIOD_NS: u64 = 16_666_667;

/// Length of the busy-wait before a deadline. The bulk of a wait is slept; the tail is spun
/// so that the wake-up lands on the deadline whatever the timer's precision.
pub const SPIN_TAIL_NS: u64 = 2_000_000;

/// How the surface hands frames to the display.
#[derive(Copy, Clone, Debug, PartialEq, Eq, Structural)]
pub enum PresentMode {
    Fifo,
    FifoRelaxed,
    Mailbox,
    Immediate,
    AutoVsync,
    AutoNoVsync,
}

impl PresentMode {
    pub open spec fn spec_name(self) -> Seq<char> {
        match self {
            PresentMode::Fifo => "Fifo"@,
            PresentMode::FifoRelaxed => "FifoRelaxed"@,
            PresentMode::Mailbox => "Mailbox"@,
            PresentMode::Immediate => "Immediate"@,
            PresentMode::AutoVsync => "AutoVsync"@,
            PresentMode::AutoNoVsync => "AutoNoVsync"@,
        }
    }

    /// The mode as the console shows it.
    pub fn name(self) -> (r: &'static str)
        ensures
            r@ == self.spec_name(),
    {
        match self {
            PresentMode::Fifo => "Fifo",
            PresentMode::FifoRelaxed => "FifoRelaxed",
            PresentMode::Mailbox => "Mailbox",
            PresentMode::Immediate => "Immediate",
            PresentMode::AutoVsync => "AutoVsync",
            PresentMode::AutoNoVsync => "AutoNoVsync",
        }
    }
}

/// The pacing state that console commands write and the runner reads each redraw.
#[derive(Copy, Clone, Debug, PartialEq, Eq, Structural)]
pub struct Pacing {
    /// Target frame period; `0` means uncapped.
    pub target_period_ns: u64,
    /// Requested vsync change, until the runner takes it.
    pub pending_vsync: Option<bool>,
    /// The surface's present mode, once there is a surface.
    pub present_mode: Option<PresentMode>,
}

impl Pacing {
    pub fn new() -> (r: Pacing)
        ensures
            r == (Pacing {
                target_period_ns: DEFAULT_PERIOD_NS,
                pending_vsync: None,
                present_mode: None,
            }),
    {
        Pacing {
            target_period_ns: DEFAULT_PERIOD_NS,
            pending_vsync: None,
            present_mode: None,
        }
    }
}

/// Set the target frame period; `None` removes the cap. A period of zero is kept at one.
pub fn set_target_period(pacing: &mut Pacing, period_ns: Option<u64>)
    ensures
        *final(pacing) == (Pacing {
            target_period_ns: match period_ns {
                None => 0,
                Some(p) => if p == 0 {
                    1
                } else {
                    p
                },
            },
            ..*old(pacing)
        }),
{
    pacing.target_period_ns = match period_ns {
        None => 0,
        Some(p) => if p == 0 {
            1
        } else {
            p
        },
    };
}

/// Current target frame period, or `None` if uncapped.
pub fn target_period(pacing: &Pacing) -> (r: Option<u64>)
    ensures
        r == (if pacing.target_period_ns == 0 {
            None
        } else {
            Some(pacing.target_period_ns)
        }),
{
    if pacing.target_period_ns == 0 {
        None
    } else {
        Some(pacing.target_period_ns)
    }
}

/// Request that the runner switch the surface to vsync-on on its next redraw.
pub fn request_vsync_on(pacing: &mut Pacing)
    ensures
        *final(pacing) == (Pacing { pending_vsync: Some(true), ..*old(pacing) }),
{
    pacing.pending_vsync = Some(true);
}

/// Request that the runner switch the surface to vsync-off on its next redraw.
pub fn request_vsync_off(pacing: &mut Pacing)
    ensures
        *final(pacing) == (Pacing { pending_vsync: Some(false), ..*old(pacing) }),
{
    pacing.pending_vsync = Some(false);
}

/// Pending vsync change for the runner to apply. Reading clears it, so the runner
/// re-applies only when the user asks again.
pub fn take_pending_vsync(pacing: &mut Pacing) -> (r: Option<bool>)
    ensures
        r == old(pacing).pending_vsync,
        *final(pacing) == (Pacing { pending_vsync: None, ..*old(pacing) }),
{
    let r = pacing.pending_vsync;
    pacing.pending_vsync = None;
    r
}

/// Note the present mode that the surface has.
pub fn note_present_mode(pacing: &mut Pacing, mode: PresentMode)
    ensures
        *final(pacing) == (Pacing { present_mode: Some(mode), ..*old(pacing) }),
{
    pacing.present_mode = Some(mode);
}

/// How to wait until `deadline`: sleep this long, then spin. `None` for a deadline that has
/// passed.
pub open spec fn spec_wait_plan(now: u64, deadline: u64) -> Option<nat> {
    if deadline <= now {
        None
    } else if deadline - now > SPIN_TAIL_NS {
        Some((deadline - now - SPIN_TAIL_NS) as nat)
    } else {
        Some(0)
    }
}

pub fn wait_plan(now: u64, deadline: u64) -> (r: Option<u64>)
    ensures
        match r {
            Some(n) => spec_wait_plan(now, deadline) == Some(n as nat),
            None => spec_wait_plan(now, deadline) is None,
        },
{
    if deadline <= now {
        return None;
    }
    let total: u64 = deadline - now;
    if total > SPIN_TAIL_NS {
        Some(total - SPIN_TAIL_NS)
    } else {
        Some(0)
    }
}

/// The coarse sleep never passes the deadline, and leaves no more than the spin tail.
pub proof fn sleep_ends_before_the_deadline(now: u64, deadline: u64)
    requires
        now < deadline,
    ensures
        spec_wait_plan(now, deadline) is Some,
        now + spec_wait_plan(now, deadline)->0 <= deadline,
        deadline - (now + spec_wait_plan(now, deadline)->0) <= SPIN_TAIL_NS,
{
}

/// The target period that is read is the one that was set, and none where the cap was removed.
pub proof fn target_period_is_the_one_set()
    ensures
        forall|p: &mut Pacing, period: Option<u64>, u: (), after: &Pacing, r: Option<u64>|
            #![trigger call_ensures(set_target_period, (p, period), u), call_ensures(
                target_period,
                (after,),
                r,
            )]
            call_ensures(set_target_period, (p, period), u) && call_ensures(
                target_period,
                (after,),
                r,
            ) && *after == *final(p) ==> {
                &&& period is None ==> r is None
                &&& period is Some && period->0 > 0 ==> r == period
                &&& period is Some ==> r is Some && r->0 > 0
            },
        forall|p: &mut Pacing, period: Option<u64>, u: ()| #[trigger]
            call_ensures(set_target_period, (p, period), u) ==> final(p).pending_vsync
                == p.pending_vsync && final(p).present_mode == p.present_mode,
{
}

/// A request for vsync is taken once, as it was last made, and the mode that was noted stays.
pub proof fn vsync_is_taken_once()
    ensures
        forall|p: &mut Pacing, u: ()| #[trigger]
            call_ensures(request_vsync_on, (p,), u) ==> final(p).pending_vsync == Some(true)
                && final(p).target_period_ns == p.target_period_ns && final(p).present_mode
                == p.present_mode,
        forall|p: &mut Pacing, u: ()| #[trigger]
            call_ensures(request_vsync_off, (p,), u) ==> final(p).pending_vsync == Some(false)
                && final(p).target_period_ns == p.target_period_ns && final(p).present_mode
                == p.present_mode,
        forall|p: &mut Pacing, r: Option<bool>| #[trigger]
            call_ensures(take_pending_vsync, (p,), r) ==> r == p.pending_vsync
                && final(p).pending_vsync is None && final(p).target_period_ns
                == p.target_period_ns && final(p).present_mode == p.present_mode,
        forall|p: &mut Pacing, mode: PresentMode, u: ()| #[trigger]
            call_ensures(note_present_mode, (p, mode), u) ==> final(p).present_mode == Some(mode)
                && final(p).pending_vsync == p.pending_vsync && final(p).target_period_ns
                == p.target_period_ns,
{
}

/// A wait is planned exactly for a deadline that is ahead. What is slept never passes it, and
/// what is left to spin is the tail, or the whole wait where that is shorter.
pub proof fn waits_meet_the_deadline()
    ensures
        forall|now: u64, deadline: u64, r: Option<u64>| #[trigger]
            call_ensures(wait_plan, (now, deadline), r) ==> {
                &&& r is Some <==> now < deadline
                &&& r is Some ==> now + r->0 <= deadline
                &&& r is Some && r->0 > 0 ==> deadline - (now + r->0) == SPIN_TAIL_NS
                &&& r is Some && r->0 == 0 ==> deadline - now <= SPIN_TAIL_NS
            },
{
}

/// A present mode is shown by its own name.
pub proof fn modes_have_their_own_names()
    ensures
        forall|m: PresentMode, r: &'static str| #[trigger]
            call_ensures(PresentMode::name, (m,), r) ==> {
                &&& m is Fifo ==> r@ == "Fifo"@
                &&& m is FifoRelaxed ==> r@ == "FifoRelaxed"@
                &&& m is Mailbox ==> r@ == "Mailbox"@
                &&& m is Immediate ==> r@ == "Immediate"@
                &&& m is AutoVsync ==> r@ == "AutoVsync"@
                &&& m is AutoNoVsync ==> r@ == "AutoNoVsync"@
            },
        forall|r: Pacing| #[trigger]
            call_ensures(Pacing::new, (), r) ==> r.target_period_ns == DEFAULT_PERIOD_NS
                && r.pending_vsync is None && r.present_mode is None,
{
}

} // verus!
