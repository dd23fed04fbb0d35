//! The `capture` console command.

use vstd::prelude::*;

use crate::capture::args;
use crate::capture::args::{parse_args_from, parse_format, ParsedCaptureArgs};
use crate::capture::{
    enqueue, toggle_panel_global, CaptureFormat, CaptureHub, CaptureRequest, HubView, ParamsView,
    PaletteMode, RequestView, SequenceParams,
};
use crate::console::command::Command;
use crate::console::line::{CommandResult, ConsoleWriter, LineKind, LineView};
use crate::console::model::ConsoleView;
use crate::console::Console;
use crate::keys::Key;
use crate::text;
use crate::text::{number, text_eq};

verus! {

/// The usage text of the command.
pub open spec fn help_text() -> Seq<char> {
    "capture <png|frames|gif|apng|toggle|stop|panel> [pre|post|both] [dir] [fps=N] [scale=W] [palette=local|global]"@
}

pub fn capture_help() -> (r: &'static str)
    ensures
        r@ == help_text(),
{
    "capture <png|frames|gif|apng|toggle|stop|panel> [pre|post|both] [dir] [fps=N] [scale=W] [palette=local|global]"
}

/// The caveat shown with every GIF.
pub open spec fn gif_caveat() -> Seq<char> {
    "GIF: per-frame NeuQuant flickers on raymarched content. Prefer `capture apng` for shareable clips, or `capture frames` + ffmpeg palettegen for high-quality post-processed GIFs."@
}

/// The caveat shown with a GIF that trains one palette.
pub open spec fn global_caveat() -> Seq<char> {
    "GIF palette=global: palette is trained from the first ~1s of captures; anything on screen during that window (the console, transient overlays) biases the palette toward those colors and the rest of the recording looks desaturated. Capture pre-egui (`capture gif pre palette=global`) to avoid."@
}

/// A rate as it is shown: `default` without one.
pub open spec fn fps_text(fps: Option<u16>) -> Seq<char> {
    match fps {
        Some(f) => text::decimal(f as nat),
        None => "default"@,
    }
}

/// A width as it is shown: `native` without one.
pub open spec fn scale_text(scale: Option<u32>) -> Seq<char> {
    match scale {
        Some(w) => text::decimal(w as nat),
        None => "native"@,
    }
}

fn fps_string(fps: Option<u16>) -> (r: String)
    ensures
        r@ == fps_text(fps),
{
    match fps {
        Some(f) => number(f as u64),
        None => "default".to_owned(),
    }
}

fn scale_string(scale: Option<u32>) -> (r: String)
    ensures
        r@ == scale_text(scale),
{
    match scale {
        Some(w) => number(w as u64),
        None => "native".to_owned(),
    }
}

/// The parameters that parsed arguments amount to.
pub open spec fn params_of(
    format: CaptureFormat,
    p: args::ArgsView,
    scale: Option<u32>,
    palette: PaletteMode,
) -> ParamsView {
    ParamsView { format, stage: p.stage, dir: p.dir, name: None, fps: p.fps, scale, palette }
}

fn make_params(
    format: CaptureFormat,
    p: ParsedCaptureArgs,
    scale: Option<u32>,
    palette: PaletteMode,
) -> (r: SequenceParams)
    ensures
        r@ == params_of(format, p@, scale, palette),
{
    SequenceParams { format, stage: p.stage, dir: p.dir, name: None, fps: p.fps, scale, palette }
}

/// What `capture` with these arguments queues, prints, and whether it flips the panel.
pub struct Reaction {
    pub queued: Seq<RequestView>,
    pub lines: Seq<LineView>,
    pub flip_panel: bool,
}

/// The reaction to `capture`, by its first argument.
pub open spec fn reaction(args: Seq<Seq<char>>, panel_open: bool) -> Reaction {
    if args.len() == 0 {
        Reaction {
            queued: Seq::empty(),
            lines: seq![LineView::error("usage: "@ + help_text())],
            flip_panel: false,
        }
    } else {
        let sub = args[0];
        let p = args::parsed_args(args.skip(1));
        if sub == "png"@ {
            Reaction {
                queued: seq![RequestView::OneShot { stage: p.stage, dir: p.dir, name: None }],
                lines: seq![
                    LineView::output("queued one-shot ("@ + p.stage.spec_label() + ")"@),
                ],
                flip_panel: false,
            }
        } else if sub == "frames"@ {
            Reaction {
                queued: seq![
                    RequestView::StartSequence {
                        params: params_of(CaptureFormat::Png, p, None, PaletteMode::Local),
                    },
                ],
                lines: seq![
                    LineView::output("started PNG sequence ("@ + p.stage.spec_label() + ")"@),
                ],
                flip_panel: false,
            }
        } else if sub == "gif"@ {
            Reaction {
                queued: seq![
                    RequestView::StartSequence {
                        params: params_of(CaptureFormat::Gif, p, p.scale, p.palette),
                    },
                ],
                lines: gif_warnings(p.palette).push(LineView::output(gif_started(p))),
                flip_panel: false,
            }
        } else if sub == "apng"@ {
            Reaction {
                queued: seq![
                    RequestView::StartSequence {
                        params: params_of(CaptureFormat::Apng, p, p.scale, PaletteMode::Local),
                    },
                ],
                lines: seq![LineView::output(apng_started(p))],
                flip_panel: false,
            }
        } else if sub == "stop"@ {
            Reaction {
                queued: seq![RequestView::Stop],
                lines: seq![LineView::output("stop queued"@)],
                flip_panel: false,
            }
        } else if sub == "panel"@ {
            Reaction {
                queued: Seq::empty(),
                lines: seq![
                    LineView::output(
                        if panel_open {
                            "panel closed"@
                        } else {
                            "panel opened"@
                        },
                    ),
                ],
                flip_panel: true,
            }
        } else if sub == "toggle"@ {
            let f = args::format_of(args.skip(1));
            let q = args::parsed_args(args.skip(1 + f.1 as int));
            Reaction {
                queued: seq![
                    RequestView::Toggle { params: params_of(f.0, q, q.scale, q.palette) },
                ],
                lines: seq![
                    LineView::output(
                        "toggle queued ("@ + f.0.spec_label() + ", "@ + q.stage.spec_label()
                            + ")"@,
                    ),
                ],
                flip_panel: false,
            }
        } else {
            Reaction {
                queued: Seq::empty(),
                lines: seq![
                    LineView::error("unknown sub-command `"@ + sub + "`. "@ + help_text()),
                ],
                flip_panel: false,
            }
        }
    }
}

/// The warnings that come with a GIF.
pub open spec fn gif_warnings(palette: PaletteMode) -> Seq<LineView> {
    if palette == PaletteMode::Global {
        seq![LineView::error(gif_caveat()), LineView::error(global_caveat())]
    } else {
        seq![LineView::error(gif_caveat())]
    }
}

pub open spec fn gif_started(p: args::ArgsView) -> Seq<char> {
    "started GIF stream ("@ + p.stage.spec_label() + ", fps="@ + fps_text(p.fps) + ", scale="@
        + scale_text(p.scale) + ", palette="@ + p.palette.spec_label() + ")"@
}

pub open spec fn apng_started(p: args::ArgsView) -> Seq<char> {
    "started APNG stream ("@ + p.stage.spec_label() + ", fps="@ + fps_text(p.fps) + ", scale="@
        + scale_text(p.scale) + ")"@
}

/// `{head}{stage})`.
fn staged(head: &str, stage: &str) -> (r: String)
    ensures
        r@ == head@ + stage@ + ")"@,
{
    let mut s = head.to_owned();
    s.append(stage);
    s.append(")");
    s
}

fn start_gif(hub: &mut CaptureHub, p: ParsedCaptureArgs, out: &mut ConsoleWriter)
    ensures
        final(hub)@ == (HubView {
            queue: old(hub)@.queue.push(
                RequestView::StartSequence {
                    params: params_of(CaptureFormat::Gif, p@, p.scale, p.palette),
                },
            ),
            ..old(hub)@
        }),
        final(out)@ == old(out)@ + gif_warnings(p.palette).push(LineView::output(gif_started(p@))),
{
    out.error(
        "GIF: per-frame NeuQuant flickers on raymarched content. Prefer `capture apng` for shareable clips, or `capture frames` + ffmpeg palettegen for high-quality post-processed GIFs.",
    );
    if p.palette == PaletteMode::Global {
        out.error(
            "GIF palette=global: palette is trained from the first ~1s of captures; anything on screen during that window (the console, transient overlays) biases the palette toward those colors and the rest of the recording looks desaturated. Capture pre-egui (`capture gif pre palette=global`) to avoid.",
        );
    }
    let mut s = "started GIF stream (".to_owned();
    s.append(p.stage.label());
    s.append(", fps=");
    s.append(fps_string(p.fps).as_str());
    s.append(", scale=");
    s.append(scale_string(p.scale).as_str());
    s.append(", palette=");
    s.append(p.palette.label());
    s.append(")");
    out.line(s.as_str());
    let scale = p.scale;
    let palette = p.palette;
    enqueue(
        hub,
        CaptureRequest::StartSequence {
            params: make_params(CaptureFormat::Gif, p, scale, palette),
        },
    );
    assert(out@ =~= old(out)@ + gif_warnings(p.palette).push(LineView::output(gif_started(p@))));
}

fn start_apng(hub: &mut CaptureHub, p: ParsedCaptureArgs, out: &mut ConsoleWriter)
    ensures
        final(hub)@ == (HubView {
            queue: old(hub)@.queue.push(
                RequestView::StartSequence {
                    params: params_of(CaptureFormat::Apng, p@, p.scale, PaletteMode::Local),
                },
            ),
            ..old(hub)@
        }),
        final(out)@ == old(out)@.push(LineView::output(apng_started(p@))),
{
    let mut s = "started APNG stream (".to_owned();
    s.append(p.stage.label());
    s.append(", fps=");
    s.append(fps_string(p.fps).as_str());
    s.append(", scale=");
    s.append(scale_string(p.scale).as_str());
    s.append(")");
    out.line(s.as_str());
    let scale = p.scale;
    enqueue(
        hub,
        CaptureRequest::StartSequence {
            params: make_params(CaptureFormat::Apng, p, scale, PaletteMode::Local),
        },
    );
}

/// What a reaction makes of the hub.
pub open spec fn reacted(hub: HubView, r: Reaction) -> HubView {
    HubView {
        queue: hub.queue + r.queued,
        panel_open: hub.panel_open != r.flip_panel,
        ..hub
    }
}

/// Run the `capture` command. It never fails: mistakes are reported as error lines.
pub fn run_capture(hub: &mut CaptureHub, args: &[&str], out: &mut ConsoleWriter) -> (r:
    CommandResult)
    ensures
        r is Ok,
        final(hub)@ == reacted(
            old(hub)@,
            reaction(text::str_views(args@), old(hub)@.panel_open),
        ),
        final(out)@ == old(out)@ + reaction(text::str_views(args@), old(hub)@.panel_open).lines,
{
    let ghost words = text::str_views(args@);
    let ghost re = reaction(words, hub@.panel_open);
    if args.len() == 0 {
        let mut s = "usage: ".to_owned();
        s.append(capture_help());
        out.error(s.as_str());
        assert(out@ =~= old(out)@ + re.lines);
        assert(hub@ =~= reacted(old(hub)@, re));
        return Ok(());
    }
    let sub = args[0];
    assert(words[0] == sub@);
    if text_eq(sub, "png") {
        let p = parse_args_from(args, 1);
        out.line(staged("queued one-shot (", p.stage.label()).as_str());
        enqueue(hub, CaptureRequest::OneShot { stage: p.stage, dir: p.dir, name: None });
    } else if text_eq(sub, "frames") {
        let p = parse_args_from(args, 1);
        out.line(staged("started PNG sequence (", p.stage.label()).as_str());
        enqueue(
            hub,
            CaptureRequest::StartSequence {
                params: make_params(CaptureFormat::Png, p, None, PaletteMode::Local),
            },
        );
    } else if text_eq(sub, "gif") {
        start_gif(hub, parse_args_from(args, 1), out);
    } else if text_eq(sub, "apng") {
        start_apng(hub, parse_args_from(args, 1), out);
    } else if text_eq(sub, "stop") {
        enqueue(hub, CaptureRequest::Stop);
        out.line("stop queued");
    } else if text_eq(sub, "panel") {
        let now_open = toggle_panel_global(hub);
        out.line(
            if now_open {
                "panel opened"
            } else {
                "panel closed"
            },
        );
    } else if text_eq(sub, "toggle") {
        let (format, rest) = parse_format(args, 1);
        let p = parse_args_from(args, rest);
        let mut head = "toggle queued (".to_owned();
        head.append(format.label());
        head.append(", ");
        out.line(staged(head.as_str(), p.stage.label()).as_str());
        let scale = p.scale;
        let palette = p.palette;
        enqueue(hub, CaptureRequest::Toggle { params: make_params(format, p, scale, palette) });
    } else {
        let mut s = "unknown sub-command `".to_owned();
        s.append(sub);
        s.append("`. ");
        s.append(capture_help());
        out.error(s.as_str());
    }
    assert(out@ =~= old(out)@ + re.lines);
    assert(hub@ =~= reacted(old(hub)@, re));
    Ok(())
}

/// Bind the default capture hotkeys:
/// - `F12`: `capture png post` (one-shot screenshot)
/// - `F9`: `capture toggle gif post` (press to start a GIF, again to stop)
/// - `F11`: `capture panel` (toggle the parameters window)
pub fn bind_default_hotkeys<Ctx, C: Command<Ctx>>(console: &mut Console<Ctx, C>)
    requires
        old(console).wf(),
    ensures
        final(console).wf(),
        final(console)@ == (ConsoleView {
            binds: old(console)@.binds.insert(Key::F(12), "capture png post"@).insert(
                Key::F(9),
                "capture toggle gif post"@,
            ).insert(Key::F(11), "capture panel"@),
            ..old(console)@
        }),
{
    console.bind(Key::F(12), "capture png post");
    console.bind(Key::F(9), "capture toggle gif post");
    console.bind(Key::F(11), "capture panel");
}

// ---------------------------------------------------------------------------
// Laws
// ---------------------------------------------------------------------------

/// Does the hub hold exactly one more request, this one, and is all else as it was?
pub open spec fn asks_for(v: HubView, w: HubView, r: RequestView) -> bool {
    w.queue == v.queue.push(r) && w.status == v.status && w.panel_open == v.panel_open
}

/// Is this what the command asks for? Each sub-command asks for its own kind of capture, of
/// the stage, into the directory and at the rate that its arguments give; the scale goes to
/// the formats that take one, and the palette to the one that has one.
pub open spec fn capture_meets(args: Seq<Seq<char>>, v: HubView, w: HubView) -> bool {
    let sub = args[0];
    let p = args::parsed_args(args.skip(1));
    let last = w.queue.last();
    let format = args::format_of(args.skip(1));
    let q = args::parsed_args(args.skip(1 + format.1 as int));
    &&& args.len() == 0 ==> w == v
    &&& args.len() > 0 && sub == "png"@ ==> asks_for(v, w, last) && last is OneShot
        && last->stage == p.stage && last->OneShot_dir == p.dir && last->OneShot_name is None
    &&& args.len() > 0 && sub == "frames"@ ==> asks_for(v, w, last) && last is StartSequence
        && starts(last->StartSequence_params, CaptureFormat::Png, p)
    &&& args.len() > 0 && sub == "gif"@ ==> asks_for(v, w, last) && last is StartSequence
        && starts(last->StartSequence_params, CaptureFormat::Gif, p)
        && last->StartSequence_params.scale == p.scale && last->StartSequence_params.palette
        == p.palette
    &&& args.len() > 0 && sub == "apng"@ ==> asks_for(v, w, last) && last is StartSequence
        && starts(last->StartSequence_params, CaptureFormat::Apng, p)
        && last->StartSequence_params.scale == p.scale
    &&& args.len() > 0 && sub == "stop"@ ==> asks_for(v, w, RequestView::Stop)
    &&& args.len() > 0 && sub == "toggle"@ ==> asks_for(v, w, last) && last is Toggle && starts(
        last->Toggle_params,
        format.0,
        q,
    ) && last->Toggle_params.scale == q.scale && last->Toggle_params.palette == q.palette
    &&& args.len() > 0 && sub == "panel"@ ==> w.queue == v.queue && w.panel_open == !v.panel_open
    &&& args.len() > 0 && sub != "png"@ && sub != "frames"@ && sub != "gif"@ && sub != "apng"@
        && sub != "stop"@ && sub != "toggle"@ && sub != "panel"@ ==> w == v
}

/// Do the parameters ask for a sequence of this format with the stage, the directory and the
/// rate of the arguments?
pub open spec fn starts(p: ParamsView, format: CaptureFormat, a: args::ArgsView) -> bool {
    p.format == format && p.stage == a.stage && p.dir == a.dir && p.fps == a.fps && p.name is None
}

proof fn sub_commands_differ()
    ensures
        "png"@ != "gif"@,
        "apng"@ != "stop"@,
        "frames"@ != "toggle"@,
        "png"@.len() == 3,
        "gif"@.len() == 3,
        "apng"@.len() == 4,
        "stop"@.len() == 4,
        "panel"@.len() == 5,
        "frames"@.len() == 6,
        "toggle"@.len() == 6,
{
    reveal_strlit("png");
    reveal_strlit("frames");
    reveal_strlit("gif");
    reveal_strlit("apng");
    reveal_strlit("stop");
    reveal_strlit("panel");
    reveal_strlit("toggle");
    assert("png"@[0] != "gif"@[0]);
    assert("apng"@[0] != "stop"@[0]);
    assert("frames"@[0] != "toggle"@[0]);
}

/// The capture command asks for what it says, and always tells what it did: by an error for
/// what it does not know, and for no sub-command at all.
pub proof fn capture_asks_for_what_it_says()
    ensures
        forall|hub: &mut CaptureHub, args: &[&str], out: &mut ConsoleWriter, r: CommandResult|
            #[trigger]
            call_ensures(run_capture, (hub, args, out), r) ==> {
                let a = text::str_views(args@);
                let told = (*final(out))@;
                &&& r is Ok
                &&& capture_meets(a, (*hub)@, (*final(hub))@)
                &&& (*out)@.is_prefix_of(told)
                &&& told.len() > (*out)@.len()
                &&& told.last().kind == LineKind::Error <==> a.len() == 0 || (a[0] != "png"@ && a[0]
                    != "frames"@ && a[0] != "gif"@ && a[0] != "apng"@ && a[0] != "stop"@ && a[0]
                    != "toggle"@ && a[0] != "panel"@)
            },
{
    assert forall|hub: &mut CaptureHub, args: &[&str], out: &mut ConsoleWriter, r: CommandResult|
        #[trigger]
        call_ensures(run_capture, (hub, args, out), r) implies {
        let a = text::str_views(args@);
        let told = (*final(out))@;
        &&& r is Ok
        &&& capture_meets(a, (*hub)@, (*final(hub))@)
        &&& (*out)@.is_prefix_of(told)
        &&& told.len() > (*out)@.len()
        &&& told.last().kind == LineKind::Error <==> a.len() == 0 || (a[0] != "png"@ && a[0]
            != "frames"@ && a[0] != "gif"@ && a[0] != "apng"@ && a[0] != "stop"@ && a[0]
            != "toggle"@ && a[0] != "panel"@)
    } by {
        sub_commands_differ();
        let a = text::str_views(args@);
        let v = (*hub)@;
        let w = (*final(hub))@;
        let x = reaction(a, v.panel_open);
        let told = (*final(out))@;
        assert((*out)@ =~= told.subrange(0, (*out)@.len() as int));
        assert(told.last() == x.lines.last());
        if x.queued.len() == 1 {
            assert(w.queue =~= v.queue.push(x.queued[0]));
        } else {
            assert(w.queue =~= v.queue);
        }
    }
}

/// The hotkeys are bound to commands that there are, and no other key is touched.
pub proof fn hotkeys_are_bound<Ctx, C: Command<Ctx>>()
    ensures
        forall|console: &mut Console<Ctx, C>, u: ()| #[trigger]
            call_ensures(bind_default_hotkeys::<Ctx, C>, (console,), u) ==> {
                let b = (*final(console))@.binds;
                &&& b.dom().contains(Key::F(12)) && b[Key::F(12)] == "capture png post"@
                &&& b.dom().contains(Key::F(9)) && b[Key::F(9)] == "capture toggle gif post"@
                &&& b.dom().contains(Key::F(11)) && b[Key::F(11)] == "capture panel"@
                &&& forall|key: Key|
                    key != Key::F(9) && key != Key::F(11) && key != Key::F(12) ==> (
                    #[trigger] b.dom().contains(key) <==> (*console)@.binds.dom().contains(key))
                        && b[key] == (*console)@.binds[key]
            },
{
}

/// What the command leaves in the hub is what it asks for.
pub proof fn reaction_is_met(v: HubView, a: Seq<Seq<char>>)
    ensures
        capture_meets(a, v, reacted(v, reaction(a, v.panel_open))),
{
    sub_commands_differ();
    let x = reaction(a, v.panel_open);
    let w = reacted(v, x);
    if x.queued.len() == 1 {
        assert(w.queue =~= v.queue.push(x.queued[0]));
    } else {
        assert(w.queue =~= v.queue);
    }
}

/// A GIF comes with its caveats, one more where its palette is trained; everything else is told in
/// one line, which names what was asked for.
pub proof fn captures_are_told_of()
    ensures
        forall|hub: &mut CaptureHub, args: &[&str], out: &mut ConsoleWriter, r: CommandResult|
            #[trigger]
            call_ensures(run_capture, (hub, args, out), r) && args@.len() > 0 ==> {
                let a = text::str_views(args@);
                let p = args::parsed_args(a.skip(1));
                let n = (*final(out))@.len() - (*out)@.len();
                let last = (*final(out))@.last().text;
                &&& a[0] == "gif"@ && p.palette is Local ==> n == 2
                &&& a[0] == "gif"@ && p.palette is Global ==> n == 3
                &&& a[0] != "gif"@ ==> n == 1
                &&& a[0] == "gif"@ ==> (*final(out))@[(*out)@.len() as int].kind == LineKind::Error
                &&& a[0] == "png"@ ==> last == "queued one-shot ("@ + p.stage.spec_label() + ")"@
                &&& a[0] == "frames"@ ==> last == "started PNG sequence ("@ + p.stage.spec_label()
                    + ")"@
                &&& a[0] == "stop"@ ==> last == "stop queued"@
                &&& a[0] == "panel"@ ==> last == (if (*hub)@.panel_open {
                    "panel closed"@
                } else {
                    "panel opened"@
                })
            },
{
    sub_commands_differ();
}

} // verus!
