//! The runtime's own console commands: `capture`, `fps`, `log`, `trace`, `version` and
//! `vsync`.
//!
//! They work on a [`Runtime`], the state that the commands share with the runner. What
//! takes a decimal fraction, such as a frame rate, the host works out and puts into it.

use vstd::prelude::*;

use crate::capture::command;
use crate::capture::command::{capture_help, run_capture};
use crate::capture::{CaptureHub, HubView};
use crate::console::choices;
use crate::console::choices::{slot, ValueTable};
use crate::console::command::Command;
use crate::console::line::{CommandResult, ConsoleWriter, LineKind, LineView};
use crate::console::model::ConsoleView;
use crate::console::Console;
use crate::frame_pacing::{
    request_vsync_off, request_vsync_on, set_target_period, target_period, Pacing,
};
use crate::log;
use crate::log::{run_log, LogHub, LogView};
use crate::text;
use crate::text::text_eq;
use crate::trace;
use crate::trace::{run_trace, TraceAction, TraceActionView, TraceFeed};

verus! {

// ---------------------------------------------------------------------------
// `vsync`
// ---------------------------------------------------------------------------

/// The pacing after `vsync` with these arguments.
pub open spec fn vsync_effect(pacing: Pacing, args: Seq<Seq<char>>) -> Pacing {
    let first = log::arg_at(args, 0);
    if first == Some("on"@) {
        Pacing { pending_vsync: Some(true), ..pacing }
    } else if first == Some("off"@) {
        Pacing { pending_vsync: Some(false), ..pacing }
    } else {
        pacing
    }
}

/// What `vsync` with these arguments prints: without any the present mode, or how to set it
/// while there is no surface.
pub open spec fn vsync_line(pacing: Pacing, args: Seq<Seq<char>>) -> Seq<char> {
    match log::arg_at(args, 0) {
        None => match pacing.present_mode {
            Some(mode) => "vsync: present mode "@ + mode.spec_name(),
            None => "vsync: use 'vsync on' (Fifo) or 'vsync off' (Mailbox/Immediate)"@,
        },
        Some(first) => if first == "on"@ {
            "vsync: requested ON (Fifo); applies on next frame"@
        } else if first == "off"@ {
            "vsync: requested OFF (Mailbox preferred, Immediate fallback) ; applies on next frame"@
        } else {
            "vsync: unknown subcommand '"@ + first + "' (try 'on' or 'off')"@
        },
    }
}

/// Run the `vsync` command: `on` and `off` leave a request for the runner.
pub fn run_vsync(pacing: &mut Pacing, args: &[&str], out: &mut ConsoleWriter)
    ensures
        *final(pacing) == vsync_effect(*old(pacing), text::str_views(args@)),
        final(out)@ == old(out)@.push(
            LineView::output(vsync_line(*old(pacing), text::str_views(args@))),
        ),
{
    if args.len() == 0 {
        match pacing.present_mode {
            Some(mode) => {
                let mut line = "vsync: present mode ".to_owned();
                line.append(mode.name());
                out.line(line.as_str());
            },
            None => out.line("vsync: use 'vsync on' (Fifo) or 'vsync off' (Mailbox/Immediate)"),
        }
        return;
    }
    proof {
        reveal_strlit("on");
        reveal_strlit("off");
        assert("on"@.len() != "off"@.len());
        assert(text::str_views(args@)[0] == args@[0]@);
    }
    let first = args[0];
    if text_eq(first, "on") {
        request_vsync_on(pacing);
        out.line("vsync: requested ON (Fifo); applies on next frame");
    } else if text_eq(first, "off") {
        request_vsync_off(pacing);
        out.line(
            "vsync: requested OFF (Mailbox preferred, Immediate fallback) ; applies on next frame",
        );
    } else {
        let mut line = "vsync: unknown subcommand '".to_owned();
        line.append(first);
        line.append("' (try 'on' or 'off')");
        out.line(line.as_str());
    }
}

// ---------------------------------------------------------------------------
// `fps`
// ---------------------------------------------------------------------------

/// A frame rate that the user typed, read by the host: above zero and at most 1000.
pub struct Rate {
    /// The frame period it stands for.
    pub period_ns: u64,
    /// The rate with one decimal place.
    pub shown: String,
}

/// The frame rates of one `fps` command, as the host reads them.
pub struct Rates {
    /// The present target with one decimal place; of no account while uncapped.
    pub target: String,
    /// What the first argument reads as, if that is a rate in range.
    pub typed: Option<Rate>,
}

/// Is this word for no cap at all?
pub open spec fn is_unlimited(word: Seq<char>) -> bool {
    word == "unlimited"@ || word == "off"@ || word == "0"@
}

/// The pacing after `fps` with these arguments.
pub open spec fn fps_effect(pacing: Pacing, args: Seq<Seq<char>>, rates: Rates) -> Pacing {
    match log::arg_at(args, 0) {
        None => pacing,
        Some(first) => if is_unlimited(first) {
            Pacing { target_period_ns: 0, ..pacing }
        } else {
            match rates.typed {
                Some(rate) => Pacing {
                    target_period_ns: if rate.period_ns == 0 {
                        1
                    } else {
                        rate.period_ns
                    },
                    ..pacing
                },
                None => pacing,
            }
        },
    }
}

/// What `fps` with these arguments prints.
pub open spec fn fps_line(pacing: Pacing, args: Seq<Seq<char>>, rates: Rates) -> Seq<char> {
    match log::arg_at(args, 0) {
        None => if pacing.target_period_ns == 0 {
            "fps: unlimited (uncapped — surface/vsync or browser RAF is the upper bound)"@
        } else {
            "fps: target "@ + rates.target@
        },
        Some(first) => if is_unlimited(first) {
            "fps: unlimited (cap removed)"@
        } else {
            match rates.typed {
                Some(rate) => "fps: target set to "@ + rate.shown@,
                None => "usage: fps [<n> | unlimited]  (n in (0, 1000])"@,
            }
        },
    }
}

fn print_current(pacing: &Pacing, target: &str, out: &mut ConsoleWriter)
    ensures
        final(out)@ == old(out)@.push(
            LineView::output(
                if pacing.target_period_ns == 0 {
                    "fps: unlimited (uncapped — surface/vsync or browser RAF is the upper bound)"@
                } else {
                    "fps: target "@ + target@
                },
            ),
        ),
{
    match target_period(pacing) {
        None => {
            out.line(
                "fps: unlimited (uncapped — surface/vsync or browser RAF is the upper bound)",
            );
        },
        Some(_) => {
            let mut line = "fps: target ".to_owned();
            line.append(target);
            out.line(line.as_str());
        },
    }
}

/// Run the `fps` command: show the target, set it, or remove the cap.
pub fn run_fps(pacing: &mut Pacing, args: &[&str], rates: &Rates, out: &mut ConsoleWriter)
    ensures
        *final(pacing) == fps_effect(*old(pacing), text::str_views(args@), *rates),
        final(out)@ == old(out)@.push(
            LineView::output(fps_line(*old(pacing), text::str_views(args@), *rates)),
        ),
{
    if args.len() == 0 {
        print_current(pacing, rates.target.as_str(), out);
        return;
    }
    let first = args[0];
    assert(text::str_views(args@)[0] == first@);
    if text_eq(first, "unlimited") || text_eq(first, "off") || text_eq(first, "0") {
        set_target_period(pacing, None);
        out.line("fps: unlimited (cap removed)");
        return;
    }
    match &rates.typed {
        Some(rate) => {
            set_target_period(pacing, Some(rate.period_ns));
            let mut line = "fps: target set to ".to_owned();
            line.append(rate.shown.as_str());
            out.line(line.as_str());
        },
        None => {
            out.line("usage: fps [<n> | unlimited]  (n in (0, 1000])");
        },
    }
}

// ---------------------------------------------------------------------------
// `version`
// ---------------------------------------------------------------------------

/// The demo's build identity. The hash and the dirty marker may be empty.
pub struct Version {
    pub crate_name: String,
    pub crate_version: String,
    pub build_hash: String,
    pub build_dirty: String,
}

impl Version {
    pub open spec fn line(&self) -> Seq<char> {
        let head = self.crate_name@ + " v"@ + self.crate_version@;
        if self.build_hash@.len() == 0 {
            head
        } else {
            head + " ("@ + self.build_hash@ + self.build_dirty@ + ")"@
        }
    }
}

/// Run the `version` command: name, version, and the build hash where there is one.
pub fn run_version(version: &Version, out: &mut ConsoleWriter)
    ensures
        final(out)@ == old(out)@.push(LineView::output(version.line())),
{
    let mut line = version.crate_name.as_str().to_owned();
    line.append(" v");
    line.append(version.crate_version.as_str());
    if !version.build_hash.as_str().is_empty() {
        line.append(" (");
        line.append(version.build_hash.as_str());
        line.append(version.build_dirty.as_str());
        line.append(")");
    }
    out.line(line.as_str());
}

// ---------------------------------------------------------------------------
// The runtime
// ---------------------------------------------------------------------------

/// What the commands share with the runner.
pub struct Runtime {
    pub capture: CaptureHub,
    pub log: LogHub,
    pub pacing: Pacing,
    pub rates: Rates,
    pub feed: TraceFeed,
    /// What the last `trace` command asks of the collector.
    pub trace_action: TraceAction,
    pub version: Version,
    /// Is this a native build, rather than one in a browser?
    pub native: bool,
}

/// A runtime over plain values. What no command changes is kept as it is.
pub struct RuntimeView {
    pub capture: HubView,
    pub log: LogView,
    pub pacing: Pacing,
    pub rates: Rates,
    pub feed: TraceFeed,
    pub trace_action: TraceActionView,
    pub version: Version,
    pub native: bool,
}

impl View for Runtime {
    type V = RuntimeView;

    open spec fn view(&self) -> RuntimeView {
        RuntimeView {
            capture: self.capture@,
            log: self.log@,
            pacing: self.pacing,
            rates: self.rates,
            feed: self.feed,
            trace_action: self.trace_action@,
            version: self.version,
            native: self.native,
        }
    }
}

/// The runtime's commands.
#[derive(Copy, Clone, Debug, PartialEq, Eq, Structural)]
pub enum RuntimeVerb {
    Capture,
    Fps,
    Log,
    Trace,
    Version,
    Vsync,
}

impl RuntimeVerb {
    pub open spec fn spec_name(self) -> Seq<char> {
        match self {
            RuntimeVerb::Capture => "capture"@,
            RuntimeVerb::Fps => "fps"@,
            RuntimeVerb::Log => "log"@,
            RuntimeVerb::Trace => "trace"@,
            RuntimeVerb::Version => "version"@,
            RuntimeVerb::Vsync => "vsync"@,
        }
    }

    pub open spec fn spec_help(self) -> Seq<char> {
        match self {
            RuntimeVerb::Capture => command::help_text(),
            RuntimeVerb::Fps =>
                "show or set the target framerate (default 60; use 'unlimited' to remove the cap)"@,
            RuntimeVerb::Log =>
                "mirror tracing events into the scrollback (`log [on|off|toggle]`) or echo scrollback to the browser console (`log echo [on|off|toggle]`)"@,
            RuntimeVerb::Trace =>
                "show CPU per-section frame timings (collected by rye-time::frame_trace)"@,
            RuntimeVerb::Version => "show the demo's crate version + git build hash"@,
            RuntimeVerb::Vsync =>
                "show or set the surface present mode (on = Fifo, off = Mailbox/Immediate)"@,
        }
    }

    /// The choices of each positional argument.
    pub open spec fn spec_slots(self) -> Seq<Seq<Seq<char>>> {
        match self {
            RuntimeVerb::Capture => seq![
                seq!["png"@, "frames"@, "gif"@, "apng"@, "toggle"@, "stop"@, "panel"@],
                seq!["both"@, "fps="@, "palette="@, "post"@, "pre"@, "scale="@],
                seq!["fps="@, "palette="@, "scale="@],
                seq!["fps="@, "palette="@, "scale="@],
            ],
            RuntimeVerb::Fps => seq![
                seq!["unlimited"@, "off"@, "30"@, "60"@, "120"@, "144"@, "240"@],
            ],
            RuntimeVerb::Log => seq![
                seq!["on"@, "off"@, "toggle"@, "echo"@, "events"@],
                seq!["on"@, "off"@, "toggle"@],
            ],
            RuntimeVerb::Trace => seq![seq!["summary"@, "last"@, "dump"@, "clear"@, "cap"@]],
            RuntimeVerb::Version => seq![],
            RuntimeVerb::Vsync => seq![seq!["on"@, "off"@]],
        }
    }

    /// The values of `key=value` arguments.
    pub open spec fn spec_values(self) -> Map<Seq<char>, Seq<Seq<char>>> {
        match self {
            RuntimeVerb::Capture => Map::empty().insert("palette"@, seq!["local"@, "global"@]),
            _ => Map::empty(),
        }
    }

    /// The runtime after the command.
    pub open spec fn leaves(self, v: RuntimeView, args: Seq<Seq<char>>) -> RuntimeView {
        match self {
            RuntimeVerb::Capture => RuntimeView {
                capture: command::reacted(
                    v.capture,
                    command::reaction(args, v.capture.panel_open),
                ),
                ..v
            },
            RuntimeVerb::Fps => RuntimeView {
                pacing: fps_effect(v.pacing, args, v.rates),
                ..v
            },
            RuntimeVerb::Log => RuntimeView { log: log::log_effect(v.log, args), ..v },
            RuntimeVerb::Trace => RuntimeView {
                trace_action: trace::trace_action(v.feed, args),
                ..v
            },
            RuntimeVerb::Version => v,
            RuntimeVerb::Vsync => RuntimeView { pacing: vsync_effect(v.pacing, args), ..v },
        }
    }

    /// What the command prints.
    pub open spec fn prints(self, v: RuntimeView, args: Seq<Seq<char>>) -> Seq<LineView> {
        match self {
            RuntimeVerb::Capture => command::reaction(args, v.capture.panel_open).lines,
            RuntimeVerb::Fps => seq![LineView::output(fps_line(v.pacing, args, v.rates))],
            RuntimeVerb::Log => log::log_lines(log::log_effect(v.log, args), args, v.native),
            RuntimeVerb::Trace => trace::trace_lines(v.feed, args),
            RuntimeVerb::Version => seq![LineView::output(v.version.line())],
            RuntimeVerb::Vsync => seq![LineView::output(vsync_line(v.pacing, args))],
        }
    }

    pub fn name(self) -> (r: &'static str)
        ensures
            r@ == self.spec_name(),
    {
        match self {
            RuntimeVerb::Capture => "capture",
            RuntimeVerb::Fps => "fps",
            RuntimeVerb::Log => "log",
            RuntimeVerb::Trace => "trace",
            RuntimeVerb::Version => "version",
            RuntimeVerb::Vsync => "vsync",
        }
    }

    pub fn help(self) -> (r: &'static str)
        ensures
            r@ == self.spec_help(),
    {
        match self {
            RuntimeVerb::Capture => capture_help(),
            RuntimeVerb::Fps =>
                "show or set the target framerate (default 60; use 'unlimited' to remove the cap)",
            RuntimeVerb::Log =>
                "mirror tracing events into the scrollback (`log [on|off|toggle]`) or echo scrollback to the browser console (`log echo [on|off|toggle]`)",
            RuntimeVerb::Trace =>
                "show CPU per-section frame timings (collected by rye-time::frame_trace)",
            RuntimeVerb::Version => "show the demo's crate version + git build hash",
            RuntimeVerb::Vsync =>
                "show or set the surface present mode (on = Fifo, off = Mailbox/Immediate)",
        }
    }

    fn slots(self) -> (r: Vec<Vec<&'static str>>)
        ensures
            choices::slot_views(r@) == self.spec_slots(),
    {
        let mut out: Vec<Vec<&'static str>> = Vec::new();
        match self {
            RuntimeVerb::Capture => {
                out.push(vec!["png", "frames", "gif", "apng", "toggle", "stop", "panel"]);
                out.push(vec!["both", "fps=", "palette=", "post", "pre", "scale="]);
                out.push(vec!["fps=", "palette=", "scale="]);
                out.push(vec!["fps=", "palette=", "scale="]);
            },
            RuntimeVerb::Fps => {
                out.push(vec!["unlimited", "off", "30", "60", "120", "144", "240"]);
            },
            RuntimeVerb::Log => {
                out.push(vec!["on", "off", "toggle", "echo", "events"]);
                out.push(vec!["on", "off", "toggle"]);
            },
            RuntimeVerb::Trace => {
                out.push(vec!["summary", "last", "dump", "clear", "cap"]);
            },
            RuntimeVerb::Version => {},
            RuntimeVerb::Vsync => {
                out.push(vec!["on", "off"]);
            },
        }
        assert(choices::slot_views(out@) =~~= self.spec_slots());
        out
    }

    fn values(self) -> (r: ValueTable)
        ensures
            r@ == self.spec_values(),
    {
        let mut table = ValueTable::new();
        match self {
            RuntimeVerb::Capture => {
                let values: Vec<&'static str> = vec!["local", "global"];
                table.insert("palette", values.as_slice());
                assert(text::str_views(values@) =~= seq!["local"@, "global"@]);
            },
            _ => {},
        }
        table
    }
}

/// One of the runtime's commands, ready to be registered.
pub struct RuntimeCommand {
    pub verb: RuntimeVerb,
    pub slots: Vec<Vec<&'static str>>,
    pub values: ValueTable,
}

impl RuntimeCommand {
    pub fn new(verb: RuntimeVerb) -> (r: RuntimeCommand)
        ensures
            r.verb == verb,
            r.ready(),
    {
        RuntimeCommand { verb, slots: verb.slots(), values: verb.values() }
    }
}

impl Command<Runtime> for RuntimeCommand {
    open spec fn spec_name(&self) -> Seq<char> {
        self.verb.spec_name()
    }

    open spec fn spec_help(&self) -> Seq<char> {
        self.verb.spec_help()
    }

    open spec fn spec_arg_choices(&self, arg_index: nat) -> Seq<Seq<char>> {
        choices::slot_at(self.verb.spec_slots(), arg_index)
    }

    open spec fn spec_arg_choices_ctx(&self, arg_index: nat, prior: Seq<Seq<char>>) -> Seq<
        Seq<char>,
    > {
        choices::slot_at(self.verb.spec_slots(), arg_index)
    }

    open spec fn spec_arg_value_choices(&self, arg_index: nat, key: Seq<char>) -> Seq<Seq<char>> {
        choices::values_of(self.verb.spec_values(), key)
    }

    open spec fn spec_arg_value_choices_ctx(
        &self,
        arg_index: nat,
        key: Seq<char>,
        prior: Seq<Seq<char>>,
    ) -> Seq<Seq<char>> {
        choices::values_of(self.verb.spec_values(), key)
    }

    open spec fn ready(&self) -> bool {
        choices::slot_views(self.slots@) == self.verb.spec_slots() && self.values@
            == self.verb.spec_values()
    }

    /// What the verb leaves and prints; it never fails.
    open spec fn effect(
        &self,
        args: Seq<Seq<char>>,
        before: Runtime,
        after: Runtime,
        out0: Seq<LineView>,
        out1: Seq<LineView>,
        r: CommandResult,
    ) -> bool {
        &&& r is Ok
        &&& after@ == self.verb.leaves(before@, args)
        &&& out1 == out0 + self.verb.prints(before@, args)
    }

    fn name(&self) -> (r: &str) {
        self.verb.name()
    }

    fn help(&self) -> (r: &str) {
        self.verb.help()
    }

    fn arg_choices(&self, arg_index: usize) -> (r: &[&'static str]) {
        slot(&self.slots, arg_index)
    }

    fn arg_choices_ctx<'a>(&'a self, arg_index: usize, prior: &[&str]) -> (r: &'a [&'static str]) {
        slot(&self.slots, arg_index)
    }

    fn arg_value_choices<'a>(&'a self, arg_index: usize, key: &str) -> (r: &'a [&'static str]) {
        self.values.get(key)
    }

    fn arg_value_choices_ctx<'a>(&'a self, arg_index: usize, key: &str, prior: &[&str]) -> (r:
        &'a [&'static str]) {
        self.values.get(key)
    }

    fn run(&mut self, args: &[&str], ctx: &mut Runtime, out: &mut ConsoleWriter) -> (r:
        CommandResult)
        ensures
            *final(self) == *old(self),
    {
        let ghost words = text::str_views(args@);
        let ghost lines = self.verb.prints(ctx@, words);
        match self.verb {
            RuntimeVerb::Capture => {
                let _ = run_capture(&mut ctx.capture, args, out);
            },
            RuntimeVerb::Fps => {
                run_fps(&mut ctx.pacing, args, &ctx.rates, out);
            },
            RuntimeVerb::Log => {
                let native = ctx.native;
                let _ = run_log(&mut ctx.log, args, native, out);
            },
            RuntimeVerb::Trace => {
                let action = run_trace(&ctx.feed, args, out);
                ctx.trace_action = action;
            },
            RuntimeVerb::Version => {
                run_version(&ctx.version, out);
            },
            RuntimeVerb::Vsync => {
                run_vsync(&mut ctx.pacing, args, out);
            },
        }
        assert(out@ =~= old(out)@ + lines);
        Ok(())
    }
}

/// Register one of the runtime's commands.
pub fn register_command(console: &mut Console<Runtime, RuntimeCommand>, verb: RuntimeVerb)
    requires
        old(console).wf(),
    ensures
        final(console).wf(),
        final(console)@.registry().dom() == old(console)@.registry().dom().insert(
            verb.spec_name(),
        ),
        final(console)@.registry()[verb.spec_name()].verb == verb,
        forall|name: Seq<char>|
            name != verb.spec_name() && old(console)@.registry().dom().contains(name)
                ==> #[trigger] final(console)@.registry()[name] == old(console)@.registry()[name],
        final(console)@ == (ConsoleView {
            commands: final(console)@.commands,
            ..old(console)@
        }),
{
    let command = RuntimeCommand::new(verb);
    console.register(command);
    assert(console@.registry().dom() =~= old(console)@.registry().dom().insert(
        verb.spec_name(),
    ));
}

/// The names of the runtime's commands.
pub open spec fn verb_names() -> Set<Seq<char>> {
    set![
        RuntimeVerb::Capture.spec_name(),
        RuntimeVerb::Fps.spec_name(),
        RuntimeVerb::Log.spec_name(),
        RuntimeVerb::Trace.spec_name(),
        RuntimeVerb::Version.spec_name(),
        RuntimeVerb::Vsync.spec_name(),
    ]
}

/// Register all of them. Commands of other names, and all else in the console, stay.
pub fn register_commands(console: &mut Console<Runtime, RuntimeCommand>)
    requires
        old(console).wf(),
    ensures
        final(console).wf(),
        forall|verb: RuntimeVerb|
            final(console)@.registry().dom().contains(#[trigger] verb.spec_name())
                && final(console)@.registry()[verb.spec_name()].verb == verb,
        final(console)@.registry().dom() == old(console)@.registry().dom().union(verb_names()),
        forall|name: Seq<char>|
            !verb_names().contains(name) && old(console)@.registry().dom().contains(name)
                ==> #[trigger] final(console)@.registry()[name] == old(console)@.registry()[name],
        final(console)@ == (ConsoleView {
            commands: final(console)@.commands,
            ..old(console)@
        }),
{
    proof {
        verb_names_differ();
    }
    register_command(console, RuntimeVerb::Capture);
    register_command(console, RuntimeVerb::Fps);
    register_command(console, RuntimeVerb::Log);
    register_command(console, RuntimeVerb::Trace);
    register_command(console, RuntimeVerb::Version);
    register_command(console, RuntimeVerb::Vsync);
    assert(console@.registry().dom() =~= old(console)@.registry().dom().union(verb_names()));
}

/// No two of the commands share a name.
pub proof fn verb_names_differ()
    ensures
        forall|a: RuntimeVerb, b: RuntimeVerb|
            #[trigger] a.spec_name() == #[trigger] b.spec_name() ==> a == b,
{
    reveal_strlit("capture");
    reveal_strlit("fps");
    reveal_strlit("log");
    reveal_strlit("trace");
    reveal_strlit("version");
    reveal_strlit("vsync");
    assert("capture"@.len() == 7 && "version"@.len() == 7);
    assert("fps"@.len() == 3 && "log"@.len() == 3);
    assert("trace"@.len() == 5 && "vsync"@.len() == 5);
    assert("capture"@[0] != "version"@[0]);
    assert("fps"@[0] != "log"@[0]);
    assert("trace"@[0] != "vsync"@[0]);
}

// ---------------------------------------------------------------------------
// Laws
// ---------------------------------------------------------------------------

/// Does the pacing ask for what `vsync` was told? On and off ask for just that, anything else
/// for nothing.
pub open spec fn vsync_meets(before: Pacing, args: Seq<Seq<char>>, after: Pacing) -> bool {
    &&& after.target_period_ns == before.target_period_ns
    &&& after.present_mode == before.present_mode
    &&& args.len() > 0 && args[0] == "on"@ ==> after.pending_vsync == Some(true)
    &&& args.len() > 0 && args[0] == "off"@ ==> after.pending_vsync == Some(false)
    &&& args.len() == 0 || (args[0] != "on"@ && args[0] != "off"@) ==> after.pending_vsync
        == before.pending_vsync
}

/// Does the pacing have the rate that `fps` was told? A word for none lifts the cap, a rate is
/// the cap, and anything else leaves it.
pub open spec fn fps_meets(
    before: Pacing,
    args: Seq<Seq<char>>,
    typed: Option<Rate>,
    after: Pacing,
) -> bool {
    let lifts = args.len() > 0 && (args[0] == "unlimited"@ || args[0] == "off"@ || args[0] == "0"@);
    &&& after.pending_vsync == before.pending_vsync
    &&& after.present_mode == before.present_mode
    &&& lifts ==> after.target_period_ns == 0
    &&& args.len() > 0 && !lifts && typed is Some ==> after.target_period_ns > 0 && (
    typed->0.period_ns > 0 ==> after.target_period_ns == typed->0.period_ns)
    &&& args.len() == 0 || (!lifts && typed is None) ==> after.target_period_ns
        == before.target_period_ns
}

/// The pacing commands set what they are told, and each prints one line.
pub proof fn pacing_commands_set_what_they_are_told()
    ensures
        forall|p: &mut Pacing, args: &[&str], out: &mut ConsoleWriter, u: ()| #[trigger]
            call_ensures(run_vsync, (p, args, out), u) ==> vsync_meets(
                *p,
                text::str_views(args@),
                *final(p),
            ) && (*final(out))@.len() == (*out)@.len() + 1 && (*out)@.is_prefix_of(
                (*final(out))@,
            ) && (*final(out))@.last().kind == LineKind::Output,
        forall|p: &mut Pacing, args: &[&str], rates: &Rates, out: &mut ConsoleWriter, u: ()|
            #[trigger]
            call_ensures(run_fps, (p, args, rates, out), u) ==> fps_meets(
                *p,
                text::str_views(args@),
                rates.typed,
                *final(p),
            ) && (*final(out))@.len() == (*out)@.len() + 1 && (*out)@.is_prefix_of(
                (*final(out))@,
            ) && (*final(out))@.last().kind == LineKind::Output,
{
    vsync_words_differ();
    assert forall|a: Seq<LineView>, x: LineView| true implies a.is_prefix_of(
        #[trigger] a.push(x),
    ) by {
        assert(a =~= a.push(x).subrange(0, a.len() as int));
    }
}

proof fn vsync_words_differ()
    ensures
        "on"@ != "off"@,
{
    reveal_strlit("on");
    reveal_strlit("off");
    assert("on"@.len() == 2 && "off"@.len() == 3);
}

/// What `vsync` is told is what the runner then takes.
pub proof fn vsync_requests_reach_the_runner()
    ensures
        forall|
            p: &mut Pacing,
            args: &[&str],
            out: &mut ConsoleWriter,
            u: (),
            q: &mut Pacing,
            taken: Option<bool>,
        |
            #![trigger call_ensures(run_vsync, (p, args, out), u), call_ensures(
                crate::frame_pacing::take_pending_vsync,
                (q,),
                taken,
            )]
            call_ensures(run_vsync, (p, args, out), u) && call_ensures(
                crate::frame_pacing::take_pending_vsync,
                (q,),
                taken,
            ) && *q == *final(p) && args@.len() > 0 ==> {
                &&& args@[0]@ == "on"@ ==> taken == Some(true)
                &&& args@[0]@ == "off"@ ==> taken == Some(false)
            },
{
    vsync_words_differ();
    assert forall|args: &[&str]| args@.len() > 0 implies #[trigger] text::str_views(args@)[0]
        == args@[0]@ by {}
}

/// A version line names the crate and its version, and the build where there is one.
pub proof fn version_names_the_build()
    ensures
        forall|v: &Version, out: &mut ConsoleWriter, u: ()| #[trigger]
            call_ensures(run_version, (v, out), u) ==> {
                let line = (*final(out))@.last();
                &&& (*final(out))@.len() == (*out)@.len() + 1
                &&& line.kind == LineKind::Output
                &&& (v.crate_name@ + " v"@ + v.crate_version@).is_prefix_of(line.text)
                &&& v.build_hash@.len() == 0 ==> line.text == v.crate_name@ + " v"@
                    + v.crate_version@
                &&& v.build_hash@.len() > 0 ==> line.text == v.crate_name@ + " v"@
                    + v.crate_version@ + " ("@ + v.build_hash@ + v.build_dirty@ + ")"@
            },
{
    assert forall|v: &Version, out: &mut ConsoleWriter, u: ()| #[trigger]
        call_ensures(run_version, (v, out), u) implies (v.crate_name@ + " v"@
        + v.crate_version@).is_prefix_of((*final(out))@.last().text) by {
        let head = v.crate_name@ + " v"@ + v.crate_version@;
        assert(head =~= (*final(out))@.last().text.subrange(0, head.len() as int));
    }
}

/// Each of the runtime's commands works on its own part of the runtime and leaves the others
/// alone.
pub proof fn commands_keep_to_their_part()
    ensures
        forall|
            k: &mut RuntimeCommand,
            args: &[&str],
            ctx: &mut Runtime,
            out: &mut ConsoleWriter,
            r: CommandResult,
        |
            #[trigger] call_ensures(
                <RuntimeCommand as Command<Runtime>>::run,
                (k, args, ctx, out),
                r,
            ) ==> {
                let v = (*ctx)@;
                let w = (*final(ctx))@;
                let a = text::str_views(args@);
                let verb = (*k).verb;
                &&& r is Ok
                &&& verb is Capture ==> command::capture_meets(a, v.capture, w.capture)
                &&& !(verb is Capture) ==> w.capture == v.capture
                &&& verb is Fps ==> fps_meets(v.pacing, a, v.rates.typed, w.pacing)
                &&& verb is Vsync ==> vsync_meets(v.pacing, a, w.pacing)
                &&& !(verb is Fps) && !(verb is Vsync) ==> w.pacing == v.pacing
                &&& !(verb is Log) ==> w.log == v.log
                &&& !(verb is Trace) ==> w.trace_action == v.trace_action
                &&& (*out)@.is_prefix_of((*final(out))@)
            },
{
    assert forall|
        k: &mut RuntimeCommand,
        args: &[&str],
        ctx: &mut Runtime,
        out: &mut ConsoleWriter,
        r: CommandResult,
    |
        #[trigger] call_ensures(
            <RuntimeCommand as Command<Runtime>>::run,
            (k, args, ctx, out),
            r,
        ) implies {
        let v = (*ctx)@;
        let w = (*final(ctx))@;
        let a = text::str_views(args@);
        let verb = (*k).verb;
        &&& r is Ok
        &&& verb is Capture ==> command::capture_meets(a, v.capture, w.capture)
        &&& !(verb is Capture) ==> w.capture == v.capture
        &&& verb is Fps ==> fps_meets(v.pacing, a, v.rates.typed, w.pacing)
        &&& verb is Vsync ==> vsync_meets(v.pacing, a, w.pacing)
        &&& !(verb is Fps) && !(verb is Vsync) ==> w.pacing == v.pacing
        &&& !(verb is Log) ==> w.log == v.log
        &&& !(verb is Trace) ==> w.trace_action == v.trace_action
        &&& (*out)@.is_prefix_of((*final(out))@)
    } by {
        vsync_words_differ();
        let v = (*ctx)@;
        let a = text::str_views(args@);
        command::reaction_is_met(v.capture, a);
        assert((*out)@ =~= (*final(out))@.subrange(0, (*out)@.len() as int));
    }
}

/// What a command offers, it takes: every first argument that is offered for `vsync` asks for a
/// change, and every rate and word that is offered for `fps` is one that can be typed.
pub proof fn offered_arguments_are_taken()
    ensures
        RuntimeVerb::Vsync.spec_slots() == seq![seq!["on"@, "off"@]],
        RuntimeVerb::Fps.spec_slots()[0].contains("unlimited"@),
        forall|p: Pacing, i: int|
            0 <= i < RuntimeVerb::Vsync.spec_slots()[0].len() ==> #[trigger] vsync_effect(
                p,
                seq![RuntimeVerb::Vsync.spec_slots()[0][i]],
            ).pending_vsync is Some,
        RuntimeVerb::Capture.spec_values().dom().contains("palette"@),
        RuntimeVerb::Capture.spec_values()["palette"@] == seq!["local"@, "global"@],
{
    vsync_words_differ();
    assert(RuntimeVerb::Fps.spec_slots()[0][0] == "unlimited"@);
}

/// The runtime's commands are registered under their names, all six, and nothing that was there
/// under another name is lost.
pub proof fn runtime_commands_are_registered()
    ensures
        forall|console: &mut Console<Runtime, RuntimeCommand>, u: ()| #[trigger]
            call_ensures(register_commands, (console,), u) ==> {
                let d = (*final(console))@.registry().dom();
                let m = (*final(console))@.registry();
                &&& d.contains("capture"@) && m["capture"@].verb is Capture
                &&& d.contains("fps"@) && m["fps"@].verb is Fps
                &&& d.contains("log"@) && m["log"@].verb is Log
                &&& d.contains("trace"@) && m["trace"@].verb is Trace
                &&& d.contains("version"@) && m["version"@].verb is Version
                &&& d.contains("vsync"@) && m["vsync"@].verb is Vsync
                &&& forall|name: Seq<char>|
                    (*console)@.registry().dom().contains(name) ==> #[trigger] d.contains(name)
            },
        forall|verb: RuntimeVerb, r: &'static str| #[trigger]
            call_ensures(RuntimeVerb::name, (verb,), r) ==> {
                &&& verb is Capture ==> r@ == "capture"@
                &&& verb is Fps ==> r@ == "fps"@
                &&& verb is Log ==> r@ == "log"@
                &&& verb is Trace ==> r@ == "trace"@
                &&& verb is Version ==> r@ == "version"@
                &&& verb is Vsync ==> r@ == "vsync"@
            },
{
    assert forall|console: &mut Console<Runtime, RuntimeCommand>, u: ()| #[trigger]
        call_ensures(register_commands, (console,), u) implies {
        let d = (*final(console))@.registry().dom();
        let m = (*final(console))@.registry();
        &&& d.contains("capture"@) && m["capture"@].verb is Capture
        &&& d.contains("fps"@) && m["fps"@].verb is Fps
        &&& d.contains("log"@) && m["log"@].verb is Log
        &&& d.contains("trace"@) && m["trace"@].verb is Trace
        &&& d.contains("version"@) && m["version"@].verb is Version
        &&& d.contains("vsync"@) && m["vsync"@].verb is Vsync
        &&& forall|name: Seq<char>|
            (*console)@.registry().dom().contains(name) ==> #[trigger] d.contains(name)
    } by {
        assert(RuntimeVerb::Capture.spec_name() == "capture"@);
        assert(RuntimeVerb::Fps.spec_name() == "fps"@);
        assert(RuntimeVerb::Log.spec_name() == "log"@);
        assert(RuntimeVerb::Trace.spec_name() == "trace"@);
        assert(RuntimeVerb::Version.spec_name() == "version"@);
        assert(RuntimeVerb::Vsync.spec_name() == "vsync"@);
    }
}

/// What each command offers for its arguments.
pub proof fn commands_offer_their_arguments()
    ensures
        RuntimeVerb::Capture.spec_slots() == seq![
            seq!["png"@, "frames"@, "gif"@, "apng"@, "toggle"@, "stop"@, "panel"@],
            seq!["both"@, "fps="@, "palette="@, "post"@, "pre"@, "scale="@],
            seq!["fps="@, "palette="@, "scale="@],
            seq!["fps="@, "palette="@, "scale="@],
        ],
        RuntimeVerb::Fps.spec_slots() == seq![
            seq!["unlimited"@, "off"@, "30"@, "60"@, "120"@, "144"@, "240"@],
        ],
        RuntimeVerb::Log.spec_slots() == seq![
            seq!["on"@, "off"@, "toggle"@, "echo"@, "events"@],
            seq!["on"@, "off"@, "toggle"@],
        ],
        RuntimeVerb::Trace.spec_slots() == seq![
            seq!["summary"@, "last"@, "dump"@, "clear"@, "cap"@],
        ],
        RuntimeVerb::Version.spec_slots().len() == 0,
        forall|verb: RuntimeVerb, r: RuntimeCommand| #[trigger]
            call_ensures(RuntimeCommand::new, (verb,), r) ==> r.verb == verb
                && choices::slot_views(r.slots@) == verb.spec_slots() && r.values@
                == verb.spec_values(),
{
}

/// The pacing commands tell what is set, and what they set.
pub proof fn pacing_commands_tell_what_is_set()
    ensures
        forall|p: &mut Pacing, args: &[&str], out: &mut ConsoleWriter, u: ()| #[trigger]
            call_ensures(run_vsync, (p, args, out), u) ==> {
                let a = text::str_views(args@);
                let line = (*final(out))@.last().text;
                &&& a.len() == 0 && p.present_mode is Some ==> line == "vsync: present mode "@
                    + p.present_mode->0.spec_name()
                &&& a.len() > 0 && a[0] == "on"@ ==> line
                    == "vsync: requested ON (Fifo); applies on next frame"@
                &&& a.len() > 0 && a[0] != "on"@ && a[0] != "off"@ ==> line
                    == "vsync: unknown subcommand '"@ + a[0] + "' (try 'on' or 'off')"@
            },
        forall|p: &mut Pacing, args: &[&str], rates: &Rates, out: &mut ConsoleWriter, u: ()|
            #[trigger]
            call_ensures(run_fps, (p, args, rates, out), u) ==> {
                let a = text::str_views(args@);
                let line = (*final(out))@.last().text;
                let lifts = a.len() > 0 && (a[0] == "unlimited"@ || a[0] == "off"@ || a[0] == "0"@);
                &&& a.len() == 0 && p.target_period_ns > 0 ==> line == "fps: target "@
                    + rates.target@
                &&& lifts ==> line == "fps: unlimited (cap removed)"@
                &&& a.len() > 0 && !lifts && rates.typed is Some ==> line == "fps: target set to "@
                    + rates.typed->0.shown@
                &&& a.len() > 0 && !lifts && rates.typed is None ==> line
                    == "usage: fps [<n> | unlimited]  (n in (0, 1000])"@
            },
{
    vsync_words_differ();
}

} // verus!
