use rye::cursor::{
    current_state, mark_applied, request_cursor_visible, request_grab, request_grab_mode,
    request_release, request_warp_to_center, settle_orders, take_orders, take_pending,
    take_pending_warp_center, CursorChannel, CursorOrders, CursorState, GrabMode,
};

#[test]
fn round_trip_grab_mode() {
    let mut chan = CursorChannel::new();
    let _ = take_pending(&mut chan);
    request_grab_mode(&mut chan, GrabMode::Locked);
    let (grab, _) = take_pending(&mut chan);
    assert_eq!(grab, Some(GrabMode::Locked));
    let (grab, _) = take_pending(&mut chan);
    assert_eq!(grab, None, "second read clears");
    request_grab_mode(&mut chan, GrabMode::Confined);
    let (grab, _) = take_pending(&mut chan);
    assert_eq!(grab, Some(GrabMode::Confined));
}

#[test]
fn round_trip_visibility() {
    let mut chan = CursorChannel::new();
    let _ = take_pending(&mut chan);
    request_cursor_visible(&mut chan, false);
    let (_, vis) = take_pending(&mut chan);
    assert_eq!(vis, Some(false));
    request_cursor_visible(&mut chan, true);
    let (_, vis) = take_pending(&mut chan);
    assert_eq!(vis, Some(true));
}

#[test]
fn convenience_pairs_set_both() {
    let mut chan = CursorChannel::new();
    let _ = take_pending(&mut chan);
    request_grab(&mut chan);
    let (g, v) = take_pending(&mut chan);
    assert_eq!(g, Some(GrabMode::Locked));
    assert_eq!(v, Some(false));

    request_release(&mut chan);
    let (g, v) = take_pending(&mut chan);
    assert_eq!(g, Some(GrabMode::Free));
    assert_eq!(v, Some(true));
}

#[test]
fn current_state_reads_applied_value() {
    let mut chan = CursorChannel::new();
    mark_applied(&mut chan, GrabMode::Confined, false);
    let s = current_state(&chan);
    assert_eq!(s.grab, GrabMode::Confined);
    assert!(!s.visible);
    mark_applied(&mut chan, GrabMode::Free, true);
    assert_eq!(current_state(&chan), CursorState::released());
}

/// Warp-to-center is a one-shot flag: a request is read once, and two requests before a
/// read count as one.
#[test]
fn warp_to_center_is_one_shot() {
    let mut chan = CursorChannel::new();
    let _ = take_pending_warp_center(&mut chan);
    assert!(!take_pending_warp_center(&mut chan));

    request_warp_to_center(&mut chan);
    assert!(take_pending_warp_center(&mut chan), "first read after request");
    assert!(!take_pending_warp_center(&mut chan), "second read should clear the flag");

    request_warp_to_center(&mut chan);
    request_warp_to_center(&mut chan);
    assert!(take_pending_warp_center(&mut chan));
    assert!(!take_pending_warp_center(&mut chan));
}

#[test]
fn latest_request_wins() {
    let mut chan = CursorChannel::new();
    request_grab(&mut chan);
    request_grab_mode(&mut chan, GrabMode::Confined);
    assert_eq!(take_pending(&mut chan), (Some(GrabMode::Confined), Some(false)));
    assert_eq!(take_pending(&mut chan), (None, None));
}

#[test]
fn grab_requests_leave_the_warp_alone() {
    let mut chan = CursorChannel::new();
    request_warp_to_center(&mut chan);
    request_grab(&mut chan);
    let _ = take_pending(&mut chan);
    assert!(take_pending_warp_center(&mut chan));
}

#[test]
fn nothing_is_grabbed_at_first() {
    assert_eq!(GrabMode::default(), GrabMode::Free);
    assert_eq!(CursorState::default(), CursorState { grab: GrabMode::Free, visible: false });
    assert_eq!(current_state(&CursorChannel::new()), CursorState { grab: GrabMode::Free, visible: true });
}

#[test]
fn orders_are_taken_once_and_settled() {
    let none = CursorOrders { grab: None, visible: None, warp_center: false };
    let mut chan = CursorChannel::new();
    assert_eq!(take_orders(&mut chan), none);
    request_grab(&mut chan);
    request_warp_to_center(&mut chan);
    let orders = take_orders(&mut chan);
    assert_eq!(
        orders,
        CursorOrders { grab: Some(GrabMode::Locked), visible: Some(false), warp_center: true }
    );
    assert_eq!(current_state(&chan), CursorState { grab: GrabMode::Free, visible: true });
    request_cursor_visible(&mut chan, true);
    settle_orders(&mut chan, orders, true);
    assert_eq!(current_state(&chan), CursorState { grab: GrabMode::Locked, visible: false });
    let later = take_orders(&mut chan);
    assert_eq!(later, CursorOrders { visible: Some(true), ..none });
    settle_orders(&mut chan, later, true);
    assert_eq!(current_state(&chan), CursorState { grab: GrabMode::Locked, visible: true });
}

#[test]
fn a_refused_grab_is_not_recorded() {
    let mut chan = CursorChannel::new();
    request_grab(&mut chan);
    let orders = take_orders(&mut chan);
    settle_orders(&mut chan, orders, false);
    assert_eq!(current_state(&chan), CursorState { grab: GrabMode::Free, visible: false });
}
