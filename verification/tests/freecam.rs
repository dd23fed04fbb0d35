use rye::cursor::{take_pending, take_pending_warp_center, CursorChannel, GrabMode};
use rye::freecam::{CursorMode, Freecam, Motion};

type Point = (i32, i32, i32);

const ZERO: Point = (0, 0, 0);

#[test]
fn new_is_inactive() {
    let f = Freecam::new(ZERO);
    assert!(!f.active());
    assert!(!f.cursor_grabbed());
}

#[test]
fn set_active_true_seeds_position_and_grabs() {
    let mut chan = CursorChannel::new();
    let mut f = Freecam::new(ZERO);
    let cam_pos = (3, 2, 7);
    f.set_active(&mut chan, true, cam_pos);
    assert!(f.active());
    assert!(f.cursor_grabbed());
    assert!(f.use_raw_delta);
    assert_eq!(f.position, cam_pos);
    let (grab, vis) = take_pending(&mut chan);
    assert_eq!(grab, Some(GrabMode::Locked));
    assert_eq!(vis, Some(false));
}

#[test]
fn set_active_false_releases() {
    let mut chan = CursorChannel::new();
    let mut f = Freecam::new(ZERO);
    f.set_active(&mut chan, true, ZERO);
    let _ = take_pending(&mut chan);
    f.set_active(&mut chan, false, ZERO);
    assert!(!f.active());
    assert!(!f.cursor_grabbed());
    assert!(!f.use_raw_delta);
    let (grab, vis) = take_pending(&mut chan);
    assert_eq!(grab, Some(GrabMode::Free));
    assert_eq!(vis, Some(true));
}

#[test]
fn set_active_idempotent() {
    let mut chan = CursorChannel::new();
    let mut f = Freecam::new(ZERO);
    f.set_active(&mut chan, true, ZERO);
    let _ = take_pending(&mut chan);
    f.set_active(&mut chan, true, (99, 99, 99));
    let (grab, vis) = take_pending(&mut chan);
    assert_eq!(grab, None, "idempotent set_active shouldn't re-queue");
    assert_eq!(vis, None);
    assert_eq!(f.position, ZERO);
}

#[test]
fn toggle_cursor_grab_flips_within_active() {
    let mut chan = CursorChannel::new();
    let mut f = Freecam::new(ZERO);
    f.set_active(&mut chan, true, ZERO);
    let _ = take_pending(&mut chan);

    f.toggle_cursor_grab(&mut chan);
    assert!(f.active(), "toggle doesn't change active");
    assert!(!f.cursor_grabbed());
    assert!(!f.use_raw_delta);
    let (grab, vis) = take_pending(&mut chan);
    assert_eq!(grab, Some(GrabMode::Free));
    assert_eq!(vis, Some(true));
    assert!(take_pending_warp_center(&mut chan));

    f.toggle_cursor_grab(&mut chan);
    assert!(f.cursor_grabbed());
    assert!(f.use_raw_delta);
}

#[test]
fn toggle_cursor_grab_noop_when_inactive() {
    let mut chan = CursorChannel::new();
    let mut f = Freecam::new(ZERO);
    f.toggle_cursor_grab(&mut chan);
    assert!(!f.active());
    assert!(!f.cursor_grabbed());
    let (grab, vis) = take_pending(&mut chan);
    assert_eq!(grab, None);
    assert_eq!(vis, None);
}

#[test]
fn advance_noop_when_inactive() {
    let mut f = Freecam::new(ZERO);
    assert_eq!(f.motion(), Motion { look: false, translate: false });
}

#[test]
fn advance_with_cursor_released_freezes_look_but_keeps_wasd() {
    let mut chan = CursorChannel::new();
    let mut f = Freecam::new(ZERO);
    f.set_active(&mut chan, true, ZERO);
    assert_eq!(f.motion(), Motion { look: true, translate: true });
    f.toggle_cursor_grab(&mut chan);
    assert_eq!(f.motion(), Motion { look: false, translate: true });
}

#[test]
fn default_cursor_mode_is_toggle() {
    let f = Freecam::new(ZERO);
    assert_eq!(f.cursor_mode(), CursorMode::Toggle);
    assert_eq!(CursorMode::default(), CursorMode::Toggle);
}

#[test]
fn cursor_mode_from_token_roundtrip() {
    for m in [CursorMode::Hold, CursorMode::Toggle] {
        assert_eq!(CursorMode::from_token(m.token()), Some(m));
    }
    assert_eq!(CursorMode::from_token("nope"), None);
}

#[test]
fn on_alt_hold_releases_and_regrabs() {
    let mut chan = CursorChannel::new();
    let mut f = Freecam::new(ZERO).with_cursor_mode(CursorMode::Hold);
    f.set_active(&mut chan, true, ZERO);
    let _ = take_pending(&mut chan);

    f.on_alt(&mut chan, true);
    assert!(f.active());
    assert!(!f.cursor_grabbed());
    let (grab, _vis) = take_pending(&mut chan);
    assert_eq!(grab, Some(GrabMode::Free));

    f.on_alt(&mut chan, false);
    assert!(f.cursor_grabbed());
    let (grab, _vis) = take_pending(&mut chan);
    assert_eq!(grab, Some(GrabMode::Locked));
}

#[test]
fn on_alt_toggle_ignores_release() {
    let mut chan = CursorChannel::new();
    let mut f = Freecam::new(ZERO).with_cursor_mode(CursorMode::Toggle);
    f.set_active(&mut chan, true, ZERO);
    let _ = take_pending(&mut chan);

    f.on_alt(&mut chan, true);
    assert!(!f.cursor_grabbed());
    let _ = take_pending(&mut chan);

    f.on_alt(&mut chan, false);
    assert!(!f.cursor_grabbed());
    let (grab, vis) = take_pending(&mut chan);
    assert_eq!(grab, None);
    assert_eq!(vis, None);

    f.on_alt(&mut chan, true);
    assert!(f.cursor_grabbed());
}

#[test]
fn on_alt_noop_when_inactive() {
    let mut chan = CursorChannel::new();
    let mut f = Freecam::new(ZERO);
    f.on_alt(&mut chan, true);
    assert!(!f.active());
    let (grab, vis) = take_pending(&mut chan);
    assert_eq!(grab, None);
    assert_eq!(vis, None);
}

#[test]
fn set_cursor_mode_preserves_grab_state() {
    let mut chan = CursorChannel::new();
    let mut f = Freecam::new(ZERO);
    f.set_active(&mut chan, true, ZERO);
    let _ = take_pending(&mut chan);
    let grabbed_before = f.cursor_grabbed();

    f.set_cursor_mode(CursorMode::Toggle);
    assert_eq!(f.cursor_mode(), CursorMode::Toggle);
    assert_eq!(f.cursor_grabbed(), grabbed_before, "mode flip leaves grab alone");
    let (grab, vis) = take_pending(&mut chan);
    assert_eq!(grab, None);
    assert_eq!(vis, None);
}

#[test]
fn tokens_are_lower_case() {
    assert_eq!(CursorMode::Hold.token(), "hold");
    assert_eq!(CursorMode::Toggle.token(), "toggle");
}

#[test]
fn raw_deltas_follow_the_grab_from_the_next_frame() {
    let mut chan = CursorChannel::new();
    let mut f = Freecam::new(ZERO);
    f.set_active(&mut chan, true, ZERO);
    f.use_raw_delta = false;
    f.on_alt(&mut chan, false);
    assert!(!f.use_raw_delta);
    assert_eq!(f.motion(), Motion { look: true, translate: true });
    assert!(f.use_raw_delta);
    f.use_raw_delta = false;
    f.on_alt(&mut chan, true);
    assert!(!f.cursor_grabbed() && !f.use_raw_delta);
    f.use_raw_delta = true;
    f.set_active(&mut chan, false, ZERO);
    assert!(!f.use_raw_delta);
    f.use_raw_delta = true;
    assert_eq!(f.motion(), Motion { look: false, translate: false });
    assert!(f.use_raw_delta);
}
