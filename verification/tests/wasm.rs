use rye::cursor::{current_state, request_grab, request_grab_mode, CursorChannel, GrabMode};
use rye::runner::{FrameOp, Size};
use rye::wasm::forward::{
    suppresses_button, suppresses_key, MouseCoalescer, MouseMove, ResizeDebounce,
    RESIZE_DEBOUNCE_FRAMES,
};
use rye::wasm::host_action::{
    encode_actions, pointer_lock_changed, queue_cursor_requests, HostAction, HostCall, HostQueue,
    PointerLock,
};
use rye::wasm::launch::{bootstrap_js, is_manual_mode, wasm_url, Click, Launch};
use rye::wasm::messages::{parse_non_init, InputMessage, MessageQueue, Posted, Real};
use rye::wasm::worker::{handle_message, plan_frame, Applied, Incoming, Kickoff, WorkerRunner};
use rye::wasm::worker_ui::{UiEvent, WorkerUi};

fn float(x: f32) -> Real {
    Real { bits: x.to_bits() }
}

fn key_message(key: &str, pressed: bool, ctrl: bool) -> InputMessage {
    InputMessage::Key {
        code: "KeyA".to_string(),
        key: key.to_string(),
        pressed,
        repeat: false,
        ctrl,
        shift: true,
        alt: false,
        meta: false,
    }
}

fn back(msg: InputMessage) -> InputMessage {
    parse_non_init(&msg.to_posted()).unwrap().unwrap()
}

#[test]
fn messages_round_trip() {
    assert!(matches!(
        back(InputMessage::Resize { width: 3, height: 4 }),
        InputMessage::Resize { width: 3, height: 4 }
    ));
    let moved = InputMessage::MouseMove {
        x: float(1.5),
        y: float(2.5),
        buttons: 1,
        dx: float(-3.0),
        dy: float(4.0),
    };
    match back(moved) {
        InputMessage::MouseMove { x, y, buttons, dx, dy } => {
            assert_eq!((x, y, buttons, dx, dy), (float(1.5), float(2.5), 1, float(-3.0), float(4.0)));
        }
        _ => panic!("expected a move"),
    }
    match back(key_message("a", true, false)) {
        InputMessage::Key { code, key, pressed, shift, ctrl, .. } => {
            assert_eq!((code.as_str(), key.as_str()), ("KeyA", "a"));
            assert!(pressed && shift && !ctrl);
        }
        _ => panic!("expected a key"),
    }
    assert!(matches!(back(InputMessage::Focus(false)), InputMessage::Focus(false)));
    assert!(matches!(back(InputMessage::Visibility(true)), InputMessage::Visibility(true)));
    assert!(matches!(
        back(InputMessage::PointerLockChanged(true)),
        InputMessage::PointerLockChanged(true)
    ));
    assert!(matches!(back(InputMessage::Start), InputMessage::Start));
    let wheel = InputMessage::MouseWheel { dx: float(1.0), dy: float(-2.0) };
    assert!(matches!(back(wheel), InputMessage::MouseWheel { .. }));
    let button = InputMessage::MouseButton { x: float(0.0), y: float(0.0), button: 2, pressed: true };
    assert!(matches!(back(button), InputMessage::MouseButton { button: 2, pressed: true, .. }));
}

#[test]
fn unknown_and_missing_kinds() {
    assert!(parse_non_init(&Posted::of("nope")).unwrap().is_none());
    let mut p = Posted::of("x");
    p.kind = None;
    match parse_non_init(&p) {
        Err(e) => assert!(!e.message().is_empty()),
        Ok(_) => panic!("expected an error"),
    }
    assert!(matches!(handle_message(&p), Incoming::Malformed));
    assert!(matches!(handle_message(&Posted::of("nope")), Incoming::Unknown));
}

#[test]
fn worker_routes_messages() {
    assert!(matches!(handle_message(&Posted::of("start")), Incoming::Start));
    match handle_message(&Posted::of("init")) {
        Incoming::Init(s) => assert_eq!(s, Size { width: 800, height: 600 }),
        _ => panic!("expected an init"),
    }
    let mut p = Posted::of("init");
    p.set_u32("width", 10);
    p.set_u32("height", 20);
    match handle_message(&p) {
        Incoming::Init(s) => assert_eq!(s, Size { width: 10, height: 20 }),
        _ => panic!("expected an init"),
    }
    assert!(matches!(
        handle_message(&InputMessage::Focus(true).to_posted()),
        Incoming::Queue(InputMessage::Focus(true))
    ));
}

#[test]
fn queue_keeps_order() {
    let mut q = MessageQueue::new();
    q.enqueue(InputMessage::Focus(true));
    q.enqueue(InputMessage::Start);
    let out = q.drain_messages();
    assert_eq!(out.len(), 2);
    assert!(matches!(out[0], InputMessage::Focus(true)));
    assert!(q.drain_messages().is_empty());
}

#[test]
fn kickoff_waits_for_both() {
    let mut k = Kickoff::new();
    assert!(!k.on_setup());
    assert!(k.on_start());
    assert!(!k.on_start());
    let mut k = Kickoff::new();
    assert!(!k.on_start());
    assert!(k.on_setup());
}

#[test]
fn worker_applies_messages() {
    let mut w = WorkerRunner::new(Size { width: 1, height: 1 });
    assert!(matches!(
        w.apply_message(&InputMessage::Resize { width: 0, height: 9 }),
        Applied::Resize { reconfigure: None }
    ));
    assert_eq!(w.size, Size { width: 1, height: 1 });
    assert!(matches!(
        w.apply_message(&InputMessage::Resize { width: 8, height: 9 }),
        Applied::Resize { reconfigure: Some(_) }
    ));
    assert_eq!(w.size, Size { width: 8, height: 9 });
    assert!(matches!(w.apply_message(&InputMessage::Focus(false)), Applied::FocusLost));
    let moved = InputMessage::MouseMove {
        x: float(1.0),
        y: float(2.0),
        buttons: 0,
        dx: float(-3.5),
        dy: float(4.5),
    };
    match w.apply_message(&moved) {
        Applied::CursorMoved { x, y, dx, dy } => {
            assert_eq!((x, y, dx, dy), (float(1.0), float(2.0), float(-3.5), float(4.5)));
        }
        _ => panic!("expected a move"),
    }
    assert!(matches!(w.apply_message(&InputMessage::Focus(true)), Applied::Nothing));
    assert_eq!(w.frame(10, 2), (None, vec![0, 1]));
    assert_eq!(w.frame(25, 9), (Some(15), vec![2, 3, 4, 5]));
}

#[test]
fn worker_frames_have_no_captures() {
    let ops = plan_frame(1, true);
    assert!(ops.contains(&FrameOp::Record));
    assert!(ops.contains(&FrameOp::Composite));
    assert!(!ops.contains(&FrameOp::CapturePost));
    assert_eq!(ops.last(), Some(&FrameOp::Present));
}

#[test]
fn keys_type_text_without_shortcuts() {
    let mut ui = WorkerUi::new(640, 480, float(1.0));
    ui.record_input(&key_message("a", true, false), None, Some(7));
    ui.record_input(&key_message("a", true, true), None, Some(7));
    ui.record_input(&key_message("Enter", true, false), None, None);
    ui.record_input(&key_message("\u{1b}", true, false), None, None);
    let events = ui.begin_frame();
    assert_eq!(events.len(), 3);
    assert!(matches!(events[0], UiEvent::Key { key: 7, pressed: true, .. }));
    match &events[1] {
        UiEvent::Text(s) => assert_eq!(s, "a"),
        _ => panic!("expected text"),
    }
    assert!(matches!(events[2], UiEvent::Key { .. }));
    assert!(ui.begin_frame().is_empty());
    assert!(ui.modifiers.shift);
}

#[test]
fn wheel_turns_the_other_way() {
    let mut ui = WorkerUi::new(640, 480, float(1.0));
    ui.record_input(&InputMessage::MouseWheel { dx: float(2.0), dy: float(-3.0) }, None, None);
    match &ui.begin_frame()[0] {
        UiEvent::MouseWheel { dx, dy, .. } => assert_eq!((*dx, *dy), (float(-2.0), float(3.0))),
        _ => panic!("expected a wheel"),
    }
    ui.end_frame(false, true);
    assert!(ui.wants_input);
    ui.end_frame(false, false);
    assert!(!ui.wants_input);
}

#[test]
fn unknown_buttons_are_not_forwarded() {
    let mut ui = WorkerUi::new(640, 480, float(1.0));
    let press = InputMessage::MouseButton { x: float(1.0), y: float(1.0), button: 9, pressed: true };
    ui.record_input(&press, None, None);
    assert!(ui.begin_frame().is_empty());
    ui.record_input(&press, Some(1), None);
    assert_eq!(ui.begin_frame().len(), 1);
}

#[test]
fn worker_ui_keeps_its_canvas() {
    let mut ui = WorkerUi::new(640, 480, float(2.0));
    assert!(ui.events.is_empty());
    assert!(!ui.wants_input && !ui.modifiers.command);
    assert_eq!((ui.width_px, ui.height_px, ui.pixels_per_point), (640, 480, float(2.0)));
    ui.record_input(&key_message("a", true, false), None, Some(7));
    ui.resize(800, 600, float(1.5));
    assert_eq!((ui.width_px, ui.height_px, ui.pixels_per_point), (800, 600, float(1.5)));
    assert_eq!(ui.begin_frame().len(), 2);
    ui.end_frame(true, false);
    assert_eq!((ui.width_px, ui.height_px), (800, 600));
}

#[test]
fn resize_commits_once() {
    let mut d = ResizeDebounce::new();
    d.on_resize(Size { width: 1, height: 1 });
    assert_eq!(d.on_frame(), None);
    d.on_resize(Size { width: 2, height: 2 });
    for _ in 0..RESIZE_DEBOUNCE_FRAMES - 1 {
        assert_eq!(d.on_frame(), None);
    }
    assert_eq!(d.on_frame(), Some(Size { width: 2, height: 2 }));
    assert_eq!(d.on_frame(), None);
}

#[test]
fn moves_of_a_frame_are_merged() {
    let mut c = MouseCoalescer::new();
    c.on_move(MouseMove { x: 1, y: 2, buttons: 0, dx: 3, dy: 4 });
    c.on_move(MouseMove { x: 5, y: 6, buttons: 1, dx: -1, dy: 10 });
    let m = c.on_frame().unwrap();
    assert_eq!((m.x, m.y, m.buttons, m.dx, m.dy), (5, 6, 1, 2, 14));
    assert!(c.on_frame().is_none());
}

#[test]
fn suppressed_input() {
    assert!(!suppresses_button(0));
    assert!(suppresses_button(1) && suppresses_button(2));
    assert!(suppresses_key("Tab", false, false, false));
    assert!(!suppresses_key("Tab", true, false, false));
    assert!(suppresses_key("AltLeft", false, true, false));
    assert!(!suppresses_key("KeyA", false, false, false));
}

#[test]
fn host_actions_reach_the_page() {
    let mut chan = CursorChannel::new();
    let mut queue = HostQueue::new();
    assert!(queue.take_message().is_none());
    request_grab(&mut chan);
    queue_cursor_requests(&mut chan, &mut queue);
    request_grab_mode(&mut chan, GrabMode::Confined);
    queue_cursor_requests(&mut chan, &mut queue);
    queue_cursor_requests(&mut chan, &mut queue);
    assert_eq!(
        queue.take_message(),
        Some(vec!["pointer_lock_request", "pointer_lock_request"])
    );
    assert!(queue.take_message().is_none());
    assert_eq!(
        encode_actions(&vec![HostAction::PointerLockRelease]),
        vec!["pointer_lock_release"]
    );
    let mut lock = PointerLock::new();
    assert!(matches!(lock.dispatch(Some("pointer_lock_request")), HostCall::RequestPointerLock));
    assert!(lock.click(false));
    assert!(!lock.click(true));
    assert!(matches!(lock.dispatch(None), HostCall::Warn(_)));
    match lock.dispatch(Some("jump")) {
        HostCall::Warn(s) => {
            assert_eq!(s, "rye_app::wasm: unknown host_action kind 'jump'; dropping")
        }
        _ => panic!("expected a warning"),
    }
    assert!(lock.want_locked);
    assert!(matches!(lock.dispatch(Some("pointer_lock_release")), HostCall::ExitPointerLock));
    assert!(!lock.click(false));
}

#[test]
fn pointer_lock_is_reported_back() {
    let mut chan = CursorChannel::new();
    pointer_lock_changed(&mut chan, true);
    assert_eq!(current_state(&chan).grab, GrabMode::Locked);
    assert!(!current_state(&chan).visible);
    pointer_lock_changed(&mut chan, false);
    assert_eq!(current_state(&chan).grab, GrabMode::Free);
    assert!(current_state(&chan).visible);
}

#[test]
fn start_is_sent_once() {
    let mut l = Launch::new();
    assert_eq!(l.click("overlay"), Click::Ignored);
    assert_eq!(l.click("overlay ready"), Click::Queued);
    assert_eq!(l.click("overlay ready"), Click::Ignored);
    assert!(!l.init_posted(false));
    assert!(l.init_posted(true));
    assert!(!l.init_posted(true));
    assert_eq!(l.click("ready"), Click::Ignored);

    let mut l = Launch::new();
    assert!(!l.init_posted(true));
    assert_eq!(l.click("ready"), Click::PostStart);
    assert!(!l.start_posted(false));
    assert_eq!(l.click("ready"), Click::PostStart);
    assert!(l.start_posted(true));
    assert_eq!(l.click("ready"), Click::Ignored);
    assert!(Launch::is_ready_signal(Some("ready")));
    assert!(!Launch::is_ready_signal(None));
    assert!(Launch::is_preview_signal(Some("preview_ready")));
}

#[test]
fn launch_texts() {
    assert!(is_manual_mode(Some("manual")));
    assert!(!is_manual_mode(Some("auto")));
    assert!(!is_manual_mode(None));
    assert_eq!(wasm_url("https://x/demo.js"), "https://x/demo_bg.wasm");
    assert_eq!(wasm_url("demo"), "demo_bg.wasm");
    assert_eq!(
        bootstrap_js("a.js", "a_bg.wasm"),
        "import init from 'a.js';\nawait init({ module_or_path: 'a_bg.wasm' });\n"
    );
}
