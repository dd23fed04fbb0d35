use rye::capture::CaptureHub;
use rye::commands::{
    register_commands, run_fps, run_version, run_vsync, Rate, Rates, Runtime, RuntimeCommand,
    RuntimeVerb, Version,
};
use rye::console::line::ConsoleWriter;
use rye::console::Console;
use rye::frame_pacing::{
    note_present_mode, take_pending_vsync, target_period, Pacing, PresentMode,
};
use rye::log::LogHub;
use rye::trace::{TraceAction, TraceFeed};

fn last(out: &ConsoleWriter) -> &str {
    out.lines.last().unwrap().text.as_str()
}

fn rates(typed: Option<(u64, &str)>) -> Rates {
    Rates {
        target: "60.0".to_string(),
        typed: typed.map(|(period_ns, shown)| Rate { period_ns, shown: shown.to_string() }),
    }
}

#[test]
fn vsync_command() {
    let mut pacing = Pacing::new();
    let mut out = ConsoleWriter::new();
    run_vsync(&mut pacing, &["on"], &mut out);
    assert_eq!(last(&out), "vsync: requested ON (Fifo); applies on next frame");
    assert_eq!(take_pending_vsync(&mut pacing), Some(true));
    run_vsync(&mut pacing, &["off"], &mut out);
    assert_eq!(take_pending_vsync(&mut pacing), Some(false));
    run_vsync(&mut pacing, &["maybe"], &mut out);
    assert_eq!(last(&out), "vsync: unknown subcommand 'maybe' (try 'on' or 'off')");
    run_vsync(&mut pacing, &[], &mut out);
    assert_eq!(last(&out), "vsync: use 'vsync on' (Fifo) or 'vsync off' (Mailbox/Immediate)");
    for (mode, line) in [
        (PresentMode::Fifo, "vsync: present mode Fifo"),
        (PresentMode::Mailbox, "vsync: present mode Mailbox"),
        (PresentMode::Immediate, "vsync: present mode Immediate"),
        (PresentMode::FifoRelaxed, "vsync: present mode FifoRelaxed"),
        (PresentMode::AutoVsync, "vsync: present mode AutoVsync"),
        (PresentMode::AutoNoVsync, "vsync: present mode AutoNoVsync"),
    ] {
        note_present_mode(&mut pacing, mode);
        run_vsync(&mut pacing, &[], &mut out);
        assert_eq!(last(&out), line);
    }
    assert_eq!(take_pending_vsync(&mut pacing), None);
}

#[test]
fn fps_command() {
    let mut pacing = Pacing::new();
    let mut out = ConsoleWriter::new();
    run_fps(&mut pacing, &[], &rates(None), &mut out);
    assert_eq!(last(&out), "fps: target 60.0");
    run_fps(&mut pacing, &["144"], &rates(Some((6_944_444, "144.0"))), &mut out);
    assert_eq!(last(&out), "fps: target set to 144.0");
    assert_eq!(target_period(&pacing), Some(6_944_444));
    run_fps(&mut pacing, &["-1"], &rates(None), &mut out);
    assert_eq!(last(&out), "usage: fps [<n> | unlimited]  (n in (0, 1000])");
    for word in ["unlimited", "off", "0"] {
        run_fps(&mut pacing, &[word], &rates(None), &mut out);
        assert_eq!(last(&out), "fps: unlimited (cap removed)");
        assert_eq!(target_period(&pacing), None);
    }
}

fn version(hash: &str) -> Version {
    Version {
        crate_name: "rye-app".to_string(),
        crate_version: "0.1.0".to_string(),
        build_hash: hash.to_string(),
        build_dirty: "*".to_string(),
    }
}

#[test]
fn version_command() {
    let mut out = ConsoleWriter::new();
    run_version(&version("abc123"), &mut out);
    assert_eq!(last(&out), "rye-app v0.1.0 (abc123*)");
    run_version(&version(""), &mut out);
    assert_eq!(last(&out), "rye-app v0.1.0");
}

fn runtime() -> Runtime {
    Runtime {
        capture: CaptureHub::new(),
        log: LogHub::new(),
        pacing: Pacing::new(),
        rates: rates(None),
        feed: TraceFeed { frames: 0, stats: vec![], last: None },
        trace_action: TraceAction::Nothing,
        version: version(""),
        native: true,
    }
}

#[test]
fn console_runs_the_runtime_commands() {
    let mut c = Console::<Runtime, RuntimeCommand>::new();
    register_commands(&mut c);
    let mut rt = runtime();
    for name in ["capture", "fps", "log", "trace", "version", "vsync"] {
        assert!(c.has_command(name));
    }
    c.execute("capture png pre", &mut rt);
    assert_eq!(rt.capture.queue.len(), 1);
    c.execute("vsync off", &mut rt);
    assert_eq!(rt.pacing.pending_vsync, Some(false));
    c.execute("trace clear", &mut rt);
    assert!(matches!(rt.trace_action, TraceAction::Clear));
    c.execute("fps unlimited", &mut rt);
    assert_eq!(target_period(&rt.pacing), None);
    c.execute("log events on", &mut rt);
    assert!(rt.log.events_enabled);
    c.execute("version", &mut rt);
    assert_eq!(c.history.back().unwrap().text, "rye-app v0.1.0");
}

#[test]
fn console_completes_the_runtime_commands() {
    let mut c = Console::<Runtime, RuntimeCommand>::new();
    register_commands(&mut c);
    c.input = "vs".to_string();
    c.tab_complete();
    assert_eq!(c.input, "vsync");
    c.input = "capture gif post pal".to_string();
    c.tab_complete();
    assert_eq!(c.input, "capture gif post palette=");
}

#[test]
fn verbs_have_names_of_their_own() {
    let verbs = [
        RuntimeVerb::Capture,
        RuntimeVerb::Fps,
        RuntimeVerb::Log,
        RuntimeVerb::Trace,
        RuntimeVerb::Version,
        RuntimeVerb::Vsync,
    ];
    let names: Vec<&str> = verbs.iter().map(|v| v.name()).collect();
    assert_eq!(names, ["capture", "fps", "log", "trace", "version", "vsync"]);
}

#[test]
fn registering_keeps_the_rest_of_the_console() {
    let mut c = Console::<Runtime, RuntimeCommand>::new();
    c.register(RuntimeCommand::new(RuntimeVerb::Fps));
    c.input = "half a li".to_string();
    c.open();
    register_commands(&mut c);
    assert_eq!(c.commands.len(), 6);
    assert_eq!(c.input, "half a li");
    assert!(c.is_open());
}
