use rye::console::line::{ConsoleWriter, HistoryLine, LineKind};
use rye::console::Console;
use rye::log::{
    drain, enabled, event_line, events_enabled, pump_into, push, run_log, set_enabled,
    set_events_enabled, toggle, toggle_events, EventText, Level, LogHub, BUFFER_CAP,
};

#[test]
fn buffer_drops_the_oldest() {
    let mut hub = LogHub::new();
    for i in 0..BUFFER_CAP + 5 {
        push(&mut hub, HistoryLine::output(&format!("{i}")));
    }
    assert!(drain(&mut hub).is_empty(), "the mirror is off at first");
    set_enabled(&mut hub, true);
    let lines = drain(&mut hub);
    assert_eq!(lines.len(), BUFFER_CAP);
    assert_eq!(lines[0].text, "5");
    assert_eq!(lines[BUFFER_CAP - 1].text, format!("{}", BUFFER_CAP + 4));
    assert!(drain(&mut hub).is_empty());
}

#[test]
fn switches() {
    let mut hub = LogHub::new();
    let before = enabled(&hub);
    assert_eq!(toggle(&mut hub), !before);
    set_enabled(&mut hub, true);
    assert!(enabled(&hub));
    assert!(!events_enabled(&hub));
    assert!(toggle_events(&mut hub));
    set_events_enabled(&mut hub, false);
    assert!(!events_enabled(&hub));
}

#[test]
fn log_command() {
    let mut hub = LogHub::new();
    let mut out = ConsoleWriter::new();
    set_enabled(&mut hub, false);
    assert!(run_log(&mut hub, &["on"], true, &mut out).is_ok());
    assert!(enabled(&hub));
    assert!(run_log(&mut hub, &["events", "on"], true, &mut out).is_ok());
    assert!(events_enabled(&hub));
    assert!(run_log(&mut hub, &["echo", "on"], true, &mut out).is_ok());
    assert!(hub.echo_enabled);
    assert!(run_log(&mut hub, &["off"], true, &mut out).is_ok());
    assert!(!enabled(&hub));
    let texts: Vec<&str> = out.lines.iter().map(|l| l.text.as_str()).collect();
    assert_eq!(texts[0], "log mirror (tracing -> scrollback): on");
    assert_eq!(texts[1], "log events (per-WindowEvent tracing): on");
    assert_eq!(texts[3], "log echo (scrollback -> browser console): on");
    assert_eq!(texts[5], "log mirror (tracing -> scrollback): off");
    assert_eq!(texts.len(), 6);
}

#[test]
fn events_become_lines() {
    let mut event = EventText::new();
    event.record("message", "frame done");
    event.record("fps", "60");
    let line = event_line(Level::Warn, "rye_app::runner", &event);
    assert_eq!(line.text, "[WARN] frame done (fps=60)");
    assert_eq!(line.kind, LineKind::Error);
    let bare = event_line(Level::Info, "rye_app::runner", &EventText::new());
    assert_eq!(bare.text, "[INFO] rye_app::runner");
    assert_eq!(bare.kind, LineKind::System);
    assert_eq!(Level::Error.kind(), LineKind::Error);
}

#[test]
fn pumping_moves_the_buffer_to_the_scrollback() {
    let mut hub = LogHub::new();
    set_enabled(&mut hub, true);
    push(&mut hub, HistoryLine::output("a"));
    push(&mut hub, HistoryLine::output("b"));
    let mut c = Console::<u32>::new();
    pump_into(&mut hub, &mut c);
    let texts: Vec<&str> = c.history.iter().map(|l| l.text.as_str()).collect();
    assert_eq!(texts, vec!["a", "b"]);
    assert!(hub.buffer.is_empty());
}
