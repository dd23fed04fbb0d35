use rye::frame_pacing::{
    request_vsync_off, request_vsync_on, set_target_period, Pacing, PresentMode,
};
use rye::runner::{
    choose_present_mode, entry, name_ticks, plan_finish, plan_scene, render_target, time_since,
    title_text, AfterFrame, Entry, Event, FpsReading, FrameOp, Pace, Reaction, Route, RunConfig,
    Runner, Size, SurfaceFault, Target,
};

fn runner() -> Runner {
    let mut r = Runner::new(RunConfig::default(), 0);
    r.install_init(5);
    r
}

#[test]
fn default_config() {
    let c = RunConfig::default();
    assert_eq!(c.fixed_hz, 60);
    assert!(c.esc_exits);
    assert!(c.log_filter.is_none());
}

#[test]
fn entries() {
    assert_eq!(entry(true, true), Entry::Worker);
    assert_eq!(entry(true, false), Entry::Worker);
    assert_eq!(entry(false, true), Entry::LaunchOnClick);
    assert_eq!(entry(false, false), Entry::Windowed);
}

#[test]
fn events_before_the_window_are_dropped() {
    let mut r = Runner::new(RunConfig::default(), 0);
    assert_eq!(r.window_event(Event::CloseRequested, false), Reaction::Drop);
    assert!(!r.logs(Event::CloseRequested, true));
}

#[test]
fn escape_spares_text_fields() {
    let mut r = runner();
    let esc = Event::Key { escape: true, pressed: true };
    assert_eq!(r.window_event(esc, false), Reaction::Exit);
    assert_eq!(
        r.window_event(esc, true),
        Reaction::Handle { route: Route::Key, resize: None, redraw: false, notify: true }
    );
    r.config.esc_exits = false;
    assert!(matches!(r.window_event(esc, false), Reaction::Handle { .. }));
    assert_eq!(r.window_event(Event::CloseRequested, true), Reaction::Exit);
}

#[test]
fn resizing_tracks_the_minimized_state() {
    let mut r = runner();
    r.window_event(Event::Resized { width: 0, height: 5 }, false);
    assert!(r.minimized);
    let got = r.window_event(Event::Resized { width: 7, height: 5 }, false);
    assert!(!r.minimized);
    assert_eq!(
        got,
        Reaction::Handle {
            route: Route::Nothing,
            resize: Some(Size { width: 7, height: 5 }),
            redraw: false,
            notify: true,
        }
    );
}

#[test]
fn focus_loss_releases_keys() {
    let mut r = runner();
    match r.window_event(Event::Focused(false), false) {
        Reaction::Handle { route, .. } => assert_eq!(route, Route::InvalidateAndRelease),
        _ => panic!("expected handling"),
    }
    assert!(r.logs(Event::Focused(false), true));
    assert!(!r.logs(Event::CursorMoved, true));
    assert!(!r.logs(Event::Focused(false), false));
}

#[test]
fn present_modes() {
    let all = vec![PresentMode::Fifo, PresentMode::Immediate, PresentMode::Mailbox];
    assert_eq!(choose_present_mode(true, &all, PresentMode::Mailbox), PresentMode::Fifo);
    assert_eq!(choose_present_mode(false, &all, PresentMode::Fifo), PresentMode::Mailbox);
    let some = vec![PresentMode::Immediate];
    assert_eq!(choose_present_mode(false, &some, PresentMode::Fifo), PresentMode::Immediate);
    assert_eq!(choose_present_mode(false, &vec![], PresentMode::FifoRelaxed), PresentMode::FifoRelaxed);
}

#[test]
fn frames_keep_the_period() {
    let mut r = runner();
    let mut pacing = Pacing::new();
    set_target_period(&mut pacing, Some(10));
    let modes = vec![];
    let start = |r: &mut Runner, p: &mut Pacing, now: u64, block: bool| {
        r.begin_redraw(p, &modes, PresentMode::Fifo, now, block).pace
    };
    assert_eq!(start(&mut r, &mut pacing, 100, true), Some(Pace::Go { anchor: 100 }));
    assert_eq!(start(&mut r, &mut pacing, 103, true), Some(Pace::Wait { deadline: 110 }));
    assert_eq!(start(&mut r, &mut pacing, 112, false), Some(Pace::Later));
    assert_eq!(start(&mut r, &mut pacing, 120, false), Some(Pace::Go { anchor: 120 }));
    assert_eq!(start(&mut r, &mut pacing, 500, true), Some(Pace::Go { anchor: 500 }));
    set_target_period(&mut pacing, None);
    assert_eq!(start(&mut r, &mut pacing, 501, true), Some(Pace::Go { anchor: 501 }));
}

#[test]
fn minimized_windows_leave_requests_pending() {
    let mut r = runner();
    let mut pacing = Pacing::new();
    request_vsync_off(&mut pacing);
    r.minimized = true;
    let start = r.begin_redraw(&mut pacing, &vec![PresentMode::Mailbox], PresentMode::Fifo, 1, true);
    assert_eq!(start.pace, None);
    assert_eq!(pacing.pending_vsync, Some(false));
    r.minimized = false;
    let start = r.begin_redraw(&mut pacing, &vec![PresentMode::Mailbox], PresentMode::Fifo, 1, true);
    assert_eq!(start.present_mode, Some(PresentMode::Mailbox));
    assert_eq!(pacing.pending_vsync, None);
    request_vsync_on(&mut pacing);
    r.ready = false;
    let start = r.begin_redraw(&mut pacing, &vec![], PresentMode::Mailbox, 1, true);
    assert_eq!((start.present_mode, start.pace), (None, None));
    assert_eq!(pacing.pending_vsync, None);
}

#[test]
fn ticks_are_limited() {
    let mut r = runner();
    r.config.max_ticks_per_frame = 3;
    assert_eq!(r.sim_ticks(2), vec![0, 1]);
    assert_eq!(r.sim_ticks(10), vec![2, 3, 4]);
    assert_eq!(r.sim_ticks(0), Vec::<u64>::new());
    assert_eq!(r.tick_index, 5);
    assert_eq!(name_ticks(u64::MAX, 2), (vec![u64::MAX, 0], 1));
}

#[test]
fn elapsed_times() {
    let mut r = runner();
    assert_eq!(r.update_elapsed(10), None);
    assert_eq!(r.update_elapsed(25), Some(15));
    assert_eq!(time_since(Some(30), 20), Some(0));
}

#[test]
fn frame_counts() {
    let mut r = runner();
    let start = r.last_fps_update;
    assert_eq!(r.count_frame(start + 999_999_999), None);
    let due = start + 1_000_000_000;
    assert_eq!(r.count_frame(due), Some(FpsReading { frames: 2, elapsed: 1_000_000_000 }));
    assert_eq!((r.frame_count, r.last_fps_update), (0, due));
    assert_eq!(r.count_frame(0), None);
    assert_eq!(r.frame_count, 1);
}

#[test]
fn titles() {
    assert_eq!(title_text("rye", None), "rye");
    assert_eq!(title_text("rye", Some("REC 3")), "rye [REC 3]");
}

#[test]
fn frame_plans() {
    assert_eq!(
        plan_scene(true, true, true, 1),
        vec![
            FrameOp::TimerStart,
            FrameOp::Record,
            FrameOp::Split,
            FrameOp::CapturePre,
            FrameOp::Paint { resolve: false },
        ]
    );
    assert_eq!(
        plan_scene(false, true, true, 4),
        vec![FrameOp::Record, FrameOp::WarnPreSkipped, FrameOp::Paint { resolve: true }]
    );
    assert_eq!(
        plan_finish(false, true, true, true),
        vec![
            FrameOp::Split,
            FrameOp::CapturePost,
            FrameOp::AdvanceCapture,
            FrameOp::PublishStatus,
            FrameOp::Composite,
            FrameOp::Submit,
            FrameOp::Present,
        ]
    );
    assert_eq!(
        plan_finish(true, false, true, false),
        vec![
            FrameOp::PublishStatus,
            FrameOp::Submit,
            FrameOp::TimerEnd,
            FrameOp::Present,
            FrameOp::TimerTick,
        ]
    );
    assert_eq!(render_target(true, true), Target::Msaa);
    assert_eq!(render_target(false, true), Target::Scene);
    assert_eq!(render_target(false, false), Target::Surface);
}

#[test]
fn error_budget_ends_the_loop() {
    let mut r = runner();
    r.config.render_error_budget = 2;
    assert_eq!(r.frame_presented(Some("a")), AfterFrame::Redraw);
    assert_eq!(r.frame_presented(None), AfterFrame::Redraw);
    assert_eq!(r.frame_presented(Some("b")), AfterFrame::Redraw);
    assert_eq!(r.frame_presented(Some("c")), AfterFrame::Exit);
    let e = r.finish().unwrap_err();
    assert_eq!(e.message, "App::render failed 2 consecutive frames; aborting");
    assert_eq!(e.cause.as_deref(), Some("c"));
    let mut r = runner();
    r.config.render_error_budget = 0;
    for _ in 0..100 {
        assert_eq!(r.frame_presented(Some("a")), AfterFrame::Redraw);
    }
    assert!(r.finish().is_ok());
}

#[test]
fn surface_faults() {
    let mut r = runner();
    assert_eq!(r.frame_failed(SurfaceFault::Lost), AfterFrame::ResizeAndRedraw);
    assert_eq!(r.frame_failed(SurfaceFault::Outdated), AfterFrame::ResizeAndRedraw);
    assert_eq!(r.frame_failed(SurfaceFault::Timeout), AfterFrame::Redraw);
    assert_eq!(r.frame_failed(SurfaceFault::Other), AfterFrame::LogAndRedraw);
    assert_eq!(r.frame_failed(SurfaceFault::OutOfMemory), AfterFrame::Exit);
    assert_eq!(r.finish().unwrap_err().message, "wgpu surface out of memory");
}

#[test]
fn pending_setup() {
    let mut r = Runner::new(RunConfig::default(), 0);
    assert_eq!(r.poll_pending_init(None, 1), None);
    assert_eq!(r.poll_pending_init(Some(Ok(())), 1), Some(true));
    assert_eq!(
        r.deferred_error.as_ref().unwrap().message,
        "wasm init future resolved with no window present"
    );
    r.has_window = true;
    assert_eq!(r.poll_pending_init(Some(Ok(())), 9), Some(false));
    assert!(r.ready);
    assert_eq!(r.last_fps_update, 9);
    assert_eq!(r.poll_pending_init(Some(Err("gpu".to_string())), 9), Some(true));
    assert!(r.deferred_error.as_ref().unwrap().cause.is_none());
    assert_eq!(r.finish().unwrap_err().message, "gpu");
}

#[test]
fn host_failures_are_deferred() {
    let mut r = runner();
    r.fail("no adapter");
    assert_eq!(r.finish().unwrap_err().message, "no adapter");
}
