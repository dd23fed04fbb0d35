//! Log events in the console: every event is formatted and kept in a bounded buffer; a
//! console command controls whether the buffer is mirrored into the scrollback. The buffer
//! fills regardless, so switching the mirror on shows what happened before.

use std::collections::VecDeque;

use vstd::prelude::*;

use crate::console;
use crate::console::command::Command;
use crate::console::line;
use crate::console::line::{CommandResult, ConsoleWriter, HistoryLine, LineKind, LineView};
use crate::console::operation;
use crate::console::Console;
use crate::ring;
use crate::ring::push_capped;
use crate::text;
use crate::text::text_eq;

verus! {

/// Buffer cap. Older lines drop off the front.
pub const BUFFER_CAP: usize = 2000;

/// The log's switches and its buffer.
pub struct LogHub {
    /// Mirror events into the scrollback.
    pub enabled: bool,
    /// Log every window event.
    pub events_enabled: bool,
    /// Echo the scrollback to the browser console.
    pub echo_enabled: bool,
    pub buffer: VecDeque<HistoryLine>,
}

/// A log over plain values.
#[verifier::ext_equal]
pub struct LogView {
    pub enabled: bool,
    pub events_enabled: bool,
    pub echo_enabled: bool,
    pub buffer: Seq<LineView>,
}

impl View for LogHub {
    type V = LogView;

    open spec fn view(&self) -> LogView {
        LogView {
            enabled: self.enabled,
            events_enabled: self.events_enabled,
            echo_enabled: self.echo_enabled,
            buffer: line::line_views(self.buffer@),
        }
    }
}

impl LogHub {
    /// Everything off, nothing logged.
    pub fn new() -> (r: LogHub)
        ensures
            r@ == (LogView {
                enabled: false,
                events_enabled: false,
                echo_enabled: false,
                buffer: Seq::empty(),
            }),
    {
        let r = LogHub {
            enabled: false,
            events_enabled: false,
            echo_enabled: false,
            buffer: VecDeque::new(),
        };
        assert(r@.buffer =~= Seq::empty());
        r
    }
}

/// Does the runner log every window event?
pub fn events_enabled(hub: &LogHub) -> (r: bool)
    ensures
        r == hub@.events_enabled,
{
    hub.events_enabled
}

/// Set the per-event log state explicitly.
pub fn set_events_enabled(hub: &mut LogHub, b: bool)
    ensures
        final(hub)@ == (LogView { events_enabled: b, ..old(hub)@ }),
{
    hub.events_enabled = b;
}

/// Toggle the per-event log and return the new state.
pub fn toggle_events(hub: &mut LogHub) -> (r: bool)
    ensures
        r == !old(hub)@.events_enabled,
        final(hub)@ == (LogView { events_enabled: r, ..old(hub)@ }),
{
    let new = !events_enabled(hub);
    set_events_enabled(hub, new);
    new
}

/// True when log events should mirror into the console scrollback this frame.
pub fn enabled(hub: &LogHub) -> (r: bool)
    ensures
        r == hub@.enabled,
{
    hub.enabled
}

/// Switch the mirror.
pub fn set_enabled(hub: &mut LogHub, b: bool)
    ensures
        final(hub)@ == (LogView { enabled: b, ..old(hub)@ }),
{
    hub.enabled = b;
}

/// Flip the mirror. Returns the new state.
pub fn toggle(hub: &mut LogHub) -> (r: bool)
    ensures
        r == !old(hub)@.enabled,
        final(hub)@ == (LogView { enabled: r, ..old(hub)@ }),
{
    let new = !enabled(hub);
    set_enabled(hub, new);
    new
}

/// Append a line to the buffer, dropping the oldest beyond the cap.
pub fn push(hub: &mut LogHub, line: HistoryLine)
    ensures
        final(hub)@ == (LogView {
            buffer: ring::capped(old(hub)@.buffer.push(line@), BUFFER_CAP as nat),
            ..old(hub)@
        }),
{
    let ghost before = hub.buffer@;
    push_capped(&mut hub.buffer, line, BUFFER_CAP);
    assert(line::line_views(hub.buffer@) =~= ring::capped(
        line::line_views(before).push(line@),
        BUFFER_CAP as nat,
    ));
}

/// Drain pending log lines. When the mirror is off, returns nothing and keeps the buffer,
/// so that switching it on still shows recent history. When it is on, takes everything.
pub fn drain(hub: &mut LogHub) -> (r: Vec<HistoryLine>)
    ensures
        if old(hub)@.enabled {
            line::line_views(r@) == old(hub)@.buffer && final(hub)@ == (LogView {
                buffer: Seq::empty(),
                ..old(hub)@
            })
        } else {
            r@.len() == 0 && final(hub)@ == old(hub)@
        },
{
    let mut out: Vec<HistoryLine> = Vec::new();
    if !enabled(hub) {
        return out;
    }
    let ghost all = hub.buffer@;
    assert(hub.buffer@ =~= all.skip(0));
    while hub.buffer.len() > 0
        invariant
            out@.len() + hub.buffer@.len() == all.len(),
            out@ == all.take(out@.len() as int),
            hub.buffer@ == all.skip(out@.len() as int),
            hub.enabled == old(hub).enabled,
            hub.events_enabled == old(hub).events_enabled,
            hub.echo_enabled == old(hub).echo_enabled,
        decreases hub.buffer@.len(),
    {
        let ghost k = out@.len() as int;
        match hub.buffer.pop_front() {
            Some(l) => {
                out.push(l);
                assert(all.take(k + 1) =~= all.take(k).push(all[k]));
                assert(hub.buffer@ =~= all.skip(k + 1));
            },
            None => {},
        }
    }
    assert(out@ =~= all);
    assert(line::line_views(hub.buffer@) =~= Seq::empty());
    out
}

/// Pump pending log lines into a console's scrollback. Call once per frame, before the
/// console reacts to the frame's keys.
pub fn pump_into<Ctx, C: Command<Ctx>>(hub: &mut LogHub, console: &mut Console<Ctx, C>)
    requires
        old(console).wf(),
    ensures
        final(console).wf(),
        if old(hub)@.enabled {
            final(console)@ == old(console)@.written(old(hub)@.buffer) && final(hub)@ == (LogView {
                buffer: Seq::empty(),
                ..old(hub)@
            })
        } else {
            final(console)@ == old(console)@ && final(hub)@ == old(hub)@
        },
{
    let ghost v = console@;
    if !enabled(hub) {
        return;
    }
    let lines = drain(hub);
    console.drain_output(ConsoleWriter { lines }, Ok(()));
    assert(old(hub)@.buffer + console::model::error_lines(Ok(())) =~= old(hub)@.buffer);
}

// ---------------------------------------------------------------------------
// Events
// ---------------------------------------------------------------------------

/// How serious an event is.
#[derive(Copy, Clone, Debug, PartialEq, Eq, Structural)]
pub enum Level {
    Error,
    Warn,
    Info,
    Debug,
    Trace,
}

impl Level {
    pub open spec fn spec_label(self) -> Seq<char> {
        match self {
            Level::Error => "ERROR"@,
            Level::Warn => "WARN"@,
            Level::Info => "INFO"@,
            Level::Debug => "DEBUG"@,
            Level::Trace => "TRACE"@,
        }
    }

    pub open spec fn spec_kind(self) -> LineKind {
        match self {
            Level::Error | Level::Warn => LineKind::Error,
            Level::Info => LineKind::System,
            Level::Debug | Level::Trace => LineKind::Output,
        }
    }

    pub fn label(self) -> (r: &'static str)
        ensures
            r@ == self.spec_label(),
    {
        match self {
            Level::Error => "ERROR",
            Level::Warn => "WARN",
            Level::Info => "INFO",
            Level::Debug => "DEBUG",
            Level::Trace => "TRACE",
        }
    }

    /// How a line of this level is shown.
    pub fn kind(self) -> (r: LineKind)
        ensures
            r == self.spec_kind(),
    {
        match self {
            Level::Error | Level::Warn => LineKind::Error,
            Level::Info => LineKind::System,
            Level::Debug | Level::Trace => LineKind::Output,
        }
    }
}

/// The message and the other fields of an event, collected one field at a time.
pub struct EventText {
    pub message: String,
    pub fields: String,
}

impl EventText {
    pub fn new() -> (r: EventText)
        ensures
            r.message@.len() == 0,
            r.fields@.len() == 0,
    {
        EventText { message: String::new(), fields: String::new() }
    }

    /// Take up a field whose value is already formatted. The field `message` goes to the
    /// message; others are listed as `name=value`, separated by commas.
    pub fn record(&mut self, name: &str, value: &str)
        ensures
            name@ == "message"@ ==> final(self).message@ == old(self).message@ + value@
                && final(self).fields@ == old(self).fields@,
            name@ != "message"@ ==> final(self).message@ == old(self).message@
                && final(self).fields@ == (if old(self).fields@.len() == 0 {
                name@ + "="@ + value@
            } else {
                old(self).fields@ + ", "@ + name@ + "="@ + value@
            }),
    {
        if text_eq(name, "message") {
            self.message.append(value);
        } else {
            let ghost before = self.fields@;
            if !self.fields.as_str().is_empty() {
                self.fields.append(", ");
            }
            self.fields.append(name);
            self.fields.append("=");
            self.fields.append(value);
            proof {
                if before.len() == 0 {
                    assert(self.fields@ =~= name@ + "="@ + value@);
                }
            }
        }
    }
}

/// The line of an event: its message with the other fields behind it, or where it comes
/// from if it has no message.
pub open spec fn event_text(
    level: Level,
    target: Seq<char>,
    message: Seq<char>,
    fields: Seq<char>,
) -> Seq<char> {
    let head = "["@ + level.spec_label() + "] "@;
    if message.len() == 0 {
        head + target
    } else if fields.len() == 0 {
        head + message
    } else {
        head + message + " ("@ + fields + ")"@
    }
}

/// The scrollback line of an event.
pub fn event_line(level: Level, target: &str, event: &EventText) -> (r: HistoryLine)
    ensures
        r@ == (LineView {
            kind: level.spec_kind(),
            text: event_text(level, target@, event.message@, event.fields@),
        }),
{
    let mut s = "[".to_owned();
    s.append(level.label());
    s.append("] ");
    if event.message.as_str().is_empty() {
        s.append(target);
    } else {
        s.append(event.message.as_str());
        if !event.fields.as_str().is_empty() {
            s.append(" (");
            s.append(event.fields.as_str());
            s.append(")");
        }
    }
    HistoryLine { kind: level.kind(), text: s }
}

// ---------------------------------------------------------------------------
// The `log` command
// ---------------------------------------------------------------------------

/// The state that a switch takes: what `on` or `off` says, else the other one.
pub open spec fn switched(word: Option<Seq<char>>, now: bool) -> bool {
    if word == Some("on"@) {
        true
    } else if word == Some("off"@) {
        false
    } else {
        !now
    }
}

/// The argument at place `i`, if there is one.
pub open spec fn arg_at(args: Seq<Seq<char>>, i: int) -> Option<Seq<char>> {
    if 0 <= i < args.len() {
        Some(args[i])
    } else {
        None
    }
}

fn read_switch(args: &[&str], i: usize, now: bool) -> (r: bool)
    ensures
        r == switched(arg_at(text::str_views(args@), i as int), now),
{
    if i < args.len() {
        assert(text::str_views(args@)[i as int] == args@[i as int]@);
        if text_eq(args[i], "on") {
            true
        } else if text_eq(args[i], "off") {
            false
        } else {
            !now
        }
    } else {
        !now
    }
}

/// What `log` with these arguments does: `log echo ..` and `log events ..` turn their own
/// switch, anything else the mirror.
pub open spec fn log_effect(v: LogView, args: Seq<Seq<char>>) -> LogView {
    let first = arg_at(args, 0);
    if first == Some("echo"@) {
        LogView { echo_enabled: switched(arg_at(args, 1), v.echo_enabled), ..v }
    } else if first == Some("events"@) {
        LogView { events_enabled: switched(arg_at(args, 1), v.events_enabled), ..v }
    } else {
        LogView { enabled: switched(first, v.enabled), ..v }
    }
}

/// What `log` prints, by what it left switched on.
pub open spec fn log_lines(w: LogView, args: Seq<Seq<char>>, native: bool) -> Seq<LineView> {
    let first = arg_at(args, 0);
    if first == Some("echo"@) {
        let head = seq![
            LineView::output(
                if w.echo_enabled {
                    "log echo (scrollback -> browser console): on"@
                } else {
                    "log echo (scrollback -> browser console): off"@
                },
            ),
        ];
        if native {
            head.push(
                LineView::output(
                    "  (note: `log echo` is a no-op on native; the browser-console path is wasm32-only)"@,
                ),
            )
        } else {
            head
        }
    } else if first == Some("events"@) {
        if w.events_enabled {
            seq![
                LineView::output("log events (per-WindowEvent tracing): on"@),
                LineView::output(
                    "  (cursor-move events are suppressed; non-cursor events emit one tracing::info! each as the runner dispatches them)"@,
                ),
            ]
        } else {
            seq![LineView::output("log events (per-WindowEvent tracing): off"@)]
        }
    } else {
        seq![
            LineView::output(
                if w.enabled {
                    "log mirror (tracing -> scrollback): on"@
                } else {
                    "log mirror (tracing -> scrollback): off"@
                },
            ),
        ]
    }
}

/// Run the `log` command: `log [on|off|toggle]` mirrors events into the scrollback,
/// `log echo [on|off|toggle]` echoes the scrollback to the browser console, and
/// `log events [on|off|toggle]` logs every window event. It never fails.
pub fn run_log(hub: &mut LogHub, args: &[&str], native: bool, out: &mut ConsoleWriter) -> (r:
    CommandResult)
    ensures
        r is Ok,
        final(hub)@ == log_effect(old(hub)@, text::str_views(args@)),
        final(out)@ == old(out)@ + log_lines(
            log_effect(old(hub)@, text::str_views(args@)),
            text::str_views(args@),
            native,
        ),
{
    let ghost words = text::str_views(args@);
    let ghost w = log_effect(hub@, words);
    if args.len() > 0 {
        assert(words[0] == args@[0]@);
    }
    if args.len() > 0 && text_eq(args[0], "echo") {
        let new = read_switch(args, 1, hub.echo_enabled);
        hub.echo_enabled = new;
        out.line(
            if new {
                "log echo (scrollback -> browser console): on"
            } else {
                "log echo (scrollback -> browser console): off"
            },
        );
        if native {
            out.line(
                "  (note: `log echo` is a no-op on native; the browser-console path is wasm32-only)",
            );
        }
    } else if args.len() > 0 && text_eq(args[0], "events") {
        let new = read_switch(args, 1, hub.events_enabled);
        set_events_enabled(hub, new);
        if new {
            out.line("log events (per-WindowEvent tracing): on");
            out.line(
                "  (cursor-move events are suppressed; non-cursor events emit one tracing::info! each as the runner dispatches them)",
            );
        } else {
            out.line("log events (per-WindowEvent tracing): off");
        }
    } else {
        let new = read_switch(args, 0, hub.enabled);
        set_enabled(hub, new);
        out.line(
            if new {
                "log mirror (tracing -> scrollback): on"
            } else {
                "log mirror (tracing -> scrollback): off"
            },
        );
    }
    assert(out@ =~= old(out)@ + log_lines(w, words, native));
    Ok(())
}

/// The log after the lines have been pushed, one after the other.
pub open spec fn logged(v: LogView, lines: Seq<LineView>) -> LogView
    decreases lines.len(),
{
    if lines.len() == 0 {
        v
    } else {
        let before = logged(v, lines.drop_last());
        LogView {
            buffer: ring::capped(before.buffer.push(lines.last()), BUFFER_CAP as nat),
            ..before
        }
    }
}

/// However many events came, the buffer holds the newest ones, in order.
pub proof fn buffer_keeps_the_newest(v: LogView, lines: Seq<LineView>)
    requires
        v.buffer.len() <= BUFFER_CAP,
    ensures
        logged(v, lines) == (LogView {
            buffer: ring::capped(v.buffer + lines, BUFFER_CAP as nat),
            ..v
        }),
    decreases lines.len(),
{
    if lines.len() == 0 {
        assert(v.buffer + lines =~= v.buffer);
    } else {
        buffer_keeps_the_newest(v, lines.drop_last());
        let all = v.buffer + lines.drop_last();
        ring::capped_twice(all, seq![lines.last()], BUFFER_CAP as nat);
        assert(ring::capped(all, BUFFER_CAP as nat).push(lines.last()) =~= ring::capped(
            all,
            BUFFER_CAP as nat,
        ) + seq![lines.last()]);
        assert(all + seq![lines.last()] =~= v.buffer + lines);
    }
}

/// What is logged while nobody looks is kept, the newest lines of it, and comes out in order and
/// once as soon as the mirror is on.
pub proof fn logged_lines_come_out_once<Ctx, C: Command<Ctx>>()
    ensures
        forall|hub: &mut LogHub, l: HistoryLine, u: ()| #[trigger]
            call_ensures(push, (hub, l), u) ==> {
                let a = (*hub)@.buffer;
                let b = (*final(hub))@.buffer;
                &&& b.is_suffix_of(a.push(l@))
                &&& b.len() == a.len() + 1 || b.len() == BUFFER_CAP
                &&& (*final(hub))@.enabled == (*hub)@.enabled
            },
        forall|hub: &mut LogHub, r: Vec<HistoryLine>| #[trigger]
            call_ensures(drain, (hub,), r) ==> {
                &&& (*hub)@.enabled ==> line::line_views(r@) == (*hub)@.buffer && (
                *final(hub))@.buffer.len() == 0
                &&& !(*hub)@.enabled ==> r@.len() == 0 && (*final(hub))@ == (*hub)@
                &&& (*final(hub))@.enabled == (*hub)@.enabled
            },
        forall|hub: &mut LogHub, console: &mut Console<Ctx, C>, u: ()| #[trigger]
            call_ensures(pump_into::<Ctx, C>, (hub, console), u) ==> {
                &&& (*hub)@.enabled ==> operation::only_shows(
                    (*console)@,
                    (*final(console))@,
                    (*hub)@.buffer,
                ) && (*final(hub))@.buffer.len() == 0
                &&& !(*hub)@.enabled ==> (*final(console))@ == (*console)@ && (*final(hub))@ == (
                *hub)@
            },
{
    assert forall|hub: &mut LogHub, l: HistoryLine, u: ()| #[trigger]
        call_ensures(push, (hub, l), u) implies (*final(hub))@.buffer.is_suffix_of(
        (*hub)@.buffer.push(l@),
    ) by {
        let all = (*hub)@.buffer.push(l@);
        let b = (*final(hub))@.buffer;
        assert(b =~= all.subrange(all.len() - b.len(), all.len() as int));
    }
    assert forall|hub: &mut LogHub, console: &mut Console<Ctx, C>, u: ()| #[trigger]
        call_ensures(
            pump_into::<Ctx, C>,
            (hub, console),
            u,
        ) && (*hub)@.enabled implies operation::only_shows(
        (*console)@,
        (*final(console))@,
        (*hub)@.buffer,
    ) by {
        operation::written_shows((*console)@, (*hub)@.buffer);
    }
}

/// A switch is what it was last set to; turning it turns it.
pub proof fn switches_are_what_they_were_set_to()
    ensures
        forall|hub: &mut LogHub, b: bool, u: ()| #[trigger]
            call_ensures(set_enabled, (hub, b), u) ==> (*final(hub))@.enabled == b && (
            *final(hub))@.events_enabled == (*hub)@.events_enabled && (*final(hub))@.buffer == (
            *hub)@.buffer,
        forall|hub: &mut LogHub, r: bool| #[trigger]
            call_ensures(toggle, (hub,), r) ==> (*final(hub))@.enabled == r && r != (*hub)@.enabled
                && (*final(hub))@.events_enabled == (*hub)@.events_enabled && (
            *final(hub))@.buffer == (*hub)@.buffer,
        forall|hub: &LogHub, r: bool| #[trigger]
            call_ensures(enabled, (hub,), r) ==> r == hub@.enabled,
        forall|hub: &mut LogHub, b: bool, u: ()| #[trigger]
            call_ensures(set_events_enabled, (hub, b), u) ==> (*final(hub))@.events_enabled == b && (
            *final(hub))@.enabled == (*hub)@.enabled,
        forall|hub: &mut LogHub, r: bool| #[trigger]
            call_ensures(toggle_events, (hub,), r) ==> (*final(hub))@.events_enabled == r && r != (
            *hub)@.events_enabled && (*final(hub))@.enabled == (*hub)@.enabled,
        forall|hub: &LogHub, r: bool| #[trigger]
            call_ensures(events_enabled, (hub,), r) ==> r == hub@.events_enabled,
{
}

/// Is the switch as the word says: on or off by that word, and turned by any other and by none?
pub open spec fn switch_meets(args: Seq<Seq<char>>, i: int, before: bool, after: bool) -> bool {
    &&& i < args.len() && args[i] == "on"@ ==> after
    &&& i < args.len() && args[i] == "off"@ ==> !after
    &&& i >= args.len() || (args[i] != "on"@ && args[i] != "off"@) ==> after == !before
}

/// The log command sets the switch that it names, the mirror where it names none, and leaves the
/// others and what was logged alone. It says what it left.
pub proof fn log_command_sets_its_switch()
    ensures
        forall|hub: &mut LogHub, args: &[&str], native: bool, out: &mut ConsoleWriter, r: CommandResult|
            #[trigger]
            call_ensures(run_log, (hub, args, native, out), r) ==> {
                let a = text::str_views(args@);
                let v = (*hub)@;
                let w = (*final(hub))@;
                let echo = a.len() > 0 && a[0] == "echo"@;
                let events = a.len() > 0 && a[0] == "events"@;
                &&& r is Ok
                &&& w.buffer == v.buffer
                &&& echo ==> switch_meets(a, 1, v.echo_enabled, w.echo_enabled)
                &&& !echo ==> w.echo_enabled == v.echo_enabled
                &&& events ==> switch_meets(a, 1, v.events_enabled, w.events_enabled)
                &&& !events ==> w.events_enabled == v.events_enabled
                &&& !echo && !events ==> switch_meets(a, 0, v.enabled, w.enabled)
                &&& echo || events ==> w.enabled == v.enabled
                &&& (*final(out))@.len() > (*out)@.len()
                &&& (*final(out))@[(*out)@.len() as int].kind == LineKind::Output
            },
{
    reveal_strlit("on");
    reveal_strlit("off");
    reveal_strlit("echo");
    reveal_strlit("events");
    assert("on"@.len() == 2 && "off"@.len() == 3 && "echo"@.len() == 4 && "events"@.len() == 6);
}

/// A line of the log says how severe it is and what happened: its kind goes by the level, and it
/// shows the level, and the message, or where there is none the place that it came from.
pub proof fn log_lines_show_level_and_message()
    ensures
        forall|level: Level, target: &str, event: &EventText, r: HistoryLine| #[trigger]
            call_ensures(event_line, (level, target, event), r) ==> {
                let shown = if event.message@.len() > 0 {
                    event.message@
                } else {
                    target@
                };
                &&& level is Error || level is Warn ==> r@.kind == LineKind::Error
                &&& level is Info ==> r@.kind == LineKind::System
                &&& level is Debug || level is Trace ==> r@.kind == LineKind::Output
                &&& level is Error ==> ("["@ + "ERROR"@ + "] "@ + shown).is_prefix_of(r@.text)
                &&& level is Warn ==> ("["@ + "WARN"@ + "] "@ + shown).is_prefix_of(r@.text)
                &&& level is Info ==> ("["@ + "INFO"@ + "] "@ + shown).is_prefix_of(r@.text)
                &&& level is Debug ==> ("["@ + "DEBUG"@ + "] "@ + shown).is_prefix_of(r@.text)
                &&& level is Trace ==> ("["@ + "TRACE"@ + "] "@ + shown).is_prefix_of(r@.text)
                &&& event.message@.len() > 0 && event.fields@.len() > 0 ==> (" ("@ + event.fields@
                    + ")"@).is_suffix_of(r@.text)
            },
{
    assert forall|level: Level, target: &str, event: &EventText, r: HistoryLine| #[trigger]
        call_ensures(event_line, (level, target, event), r) implies {
        let shown = if event.message@.len() > 0 {
            event.message@
        } else {
            target@
        };
        &&& ("["@ + level.spec_label() + "] "@ + shown).is_prefix_of(r@.text)
        &&& event.message@.len() > 0 && event.fields@.len() > 0 ==> (" ("@ + event.fields@
            + ")"@).is_suffix_of(r@.text)
    } by {
        let shown = if event.message@.len() > 0 {
            event.message@
        } else {
            target@
        };
        let head = "["@ + level.spec_label() + "] "@ + shown;
        let t = r@.text;
        assert(head =~= t.subrange(0, head.len() as int));
        let tail = " ("@ + event.fields@ + ")"@;
        if event.message@.len() > 0 && event.fields@.len() > 0 {
            assert(t =~= head + tail);
            assert(tail =~= t.subrange(t.len() - tail.len(), t.len() as int));
        }
    }
}

/// The parts of an event are gathered as they come: the message by its own name, all others as
/// `name=value`, one behind the other.
pub proof fn events_gather_their_parts()
    ensures
        forall|e: &mut EventText, name: &str, value: &str, u: ()| #[trigger]
            call_ensures(EventText::record, (e, name, value), u) ==> {
                &&& name@ == "message"@ ==> final(e).message@ == e.message@ + value@
                    && final(e).fields@ == e.fields@
                &&& name@ != "message"@ ==> final(e).message@ == e.message@
                    && e.fields@.is_prefix_of(final(e).fields@) && (name@ + "="@
                    + value@).is_suffix_of(final(e).fields@)
                &&& name@ != "message"@ && e.fields@.len() > 0 ==> final(e).fields@.len()
                    == e.fields@.len() + 2 + name@.len() + 1 + value@.len()
            },
{
    reveal_strlit(", ");
    reveal_strlit("=");
    assert forall|e: &mut EventText, name: &str, value: &str, u: ()| #[trigger]
        call_ensures(EventText::record, (e, name, value), u) && name@ != "message"@ implies
        e.fields@.is_prefix_of(final(e).fields@) && (name@ + "="@ + value@).is_suffix_of(
        final(e).fields@,
    ) by {
        let f = final(e).fields@;
        let x = name@ + "="@ + value@;
        assert(e.fields@ =~= f.subrange(0, e.fields@.len() as int));
        assert(x =~= f.subrange(f.len() - x.len(), f.len() as int));
    }
}

/// A level is shown by its own word, and each has the kind of line that fits it.
pub proof fn levels_have_their_own_words()
    ensures
        forall|l: Level, r: &'static str| #[trigger]
            call_ensures(Level::label, (l,), r) ==> {
                &&& l is Error ==> r@ == "ERROR"@
                &&& l is Warn ==> r@ == "WARN"@
                &&& l is Info ==> r@ == "INFO"@
                &&& l is Debug ==> r@ == "DEBUG"@
                &&& l is Trace ==> r@ == "TRACE"@
            },
        forall|l: Level, r: LineKind| #[trigger]
            call_ensures(Level::kind, (l,), r) ==> {
                &&& r == LineKind::Error <==> l is Error || l is Warn
                &&& r == LineKind::System <==> l is Info
                &&& r == LineKind::Output <==> l is Debug || l is Trace
            },
{
}

/// The log command tells what it left switched on.
pub proof fn log_command_tells_what_it_left()
    ensures
        forall|hub: &mut LogHub, args: &[&str], native: bool, out: &mut ConsoleWriter, r: CommandResult|
            #[trigger]
            call_ensures(run_log, (hub, args, native, out), r) ==> {
                let a = text::str_views(args@);
                let w = (*final(hub))@;
                let first = (*final(out))@[(*out)@.len() as int].text;
                let echo = a.len() > 0 && a[0] == "echo"@;
                let events = a.len() > 0 && a[0] == "events"@;
                &&& echo && w.echo_enabled ==> first
                    == "log echo (scrollback -> browser console): on"@
                &&& echo && !w.echo_enabled ==> first
                    == "log echo (scrollback -> browser console): off"@
                &&& events && w.events_enabled ==> first
                    == "log events (per-WindowEvent tracing): on"@
                &&& events && !w.events_enabled ==> first
                    == "log events (per-WindowEvent tracing): off"@
                &&& !echo && !events && w.enabled ==> first
                    == "log mirror (tracing -> scrollback): on"@
                &&& !echo && !events && !w.enabled ==> first
                    == "log mirror (tracing -> scrollback): off"@
                &&& echo ==> (*final(out))@.len() == (*out)@.len() + (if native {
                    2int
                } else {
                    1int
                })
            },
{
    reveal_strlit("echo");
    reveal_strlit("events");
    assert("echo"@.len() == 4 && "events"@.len() == 6);
}

} // verus!
