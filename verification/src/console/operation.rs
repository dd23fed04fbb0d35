//! What the console's operations do, call by call.

use vstd::prelude::*;

use crate::assoc;
use crate::console::bind_slots;
use crate::console::builtin;
use crate::console::builtin::Builtin;
use crate::console::command::Command;
use crate::console::completion;
use crate::console::completion::{CompletionContext, ContextView};
use crate::console::laws;
use crate::console::line;
use crate::console::line::{CommandResult, ConsoleWriter, HistoryLine, LineKind, LineView};
use crate::console::model;
use crate::console::model::{ConsoleView, MAX_HISTORY_LINES, MAX_INPUT_HISTORY};
use crate::console::parse;
use crate::console::{Console, FrameKeys, PanelKeys};
use crate::keys::Key;
use crate::text;

verus! {

// ---------------------------------------------------------------------------
// Writing
// ---------------------------------------------------------------------------

/// Were exactly these lines shown behind the others? The scrollback holds the newest of all,
/// as many as it has room for, and a mirror gets them all.
pub open spec fn shows<C>(v: ConsoleView<C>, w: ConsoleView<C>, lines: Seq<LineView>) -> bool {
    let all = v.history + lines;
    &&& w.history.is_suffix_of(all)
    &&& w.history.len() == all.len() || w.history.len() == MAX_HISTORY_LINES
    &&& v.mirrored ==> w.unsent == v.unsent + lines
    &&& !v.mirrored ==> w.unsent == v.unsent
}

/// Is all else of the console as it was?
pub open spec fn only_shows<C>(v: ConsoleView<C>, w: ConsoleView<C>, lines: Seq<LineView>) -> bool {
    &&& shows(v, w, lines)
    &&& w == (ConsoleView { history: w.history, unsent: w.unsent, ..v })
}

/// Writing lines shows them, and does nothing else.
pub proof fn written_shows<C>(v: ConsoleView<C>, lines: Seq<LineView>)
    ensures
        only_shows(v, v.written(lines), lines),
{
    let all = v.history + lines;
    let h = v.written(lines).history;
    if all.len() > MAX_HISTORY_LINES {
        assert(h =~= all.subrange(all.len() - h.len(), all.len() as int));
    } else {
        assert(h =~= all.subrange(0, all.len() as int));
    }
}

/// A line that is written is shown, behind all others, and nothing else changes.
pub proof fn written_lines_are_shown<Ctx, C: Command<Ctx>>()
    ensures
        forall|c: &mut Console<Ctx, C>, l: HistoryLine, u: ()| #[trigger]
            call_ensures(Console::<Ctx, C>::write, (c, l), u) ==> only_shows(
                (*c)@,
                (*final(c))@,
                seq![l@],
            ),
        forall|c: &mut Console<Ctx, C>, l: HistoryLine, u: ()| #[trigger]
            call_ensures(Console::<Ctx, C>::push_history, (c, l), u) ==> only_shows(
                (*c)@,
                (*final(c))@,
                seq![l@],
            ),
{
    assert forall|v: ConsoleView<C>, lines: Seq<LineView>| true implies only_shows(
        v,
        #[trigger] v.written(lines),
        lines,
    ) by {
        written_shows(v, lines);
    }
}

/// A mirror gets every line once: what is taken is what was waiting, and then nothing waits.
pub proof fn mirrored_lines_are_taken_once<Ctx, C: Command<Ctx>>()
    ensures
        forall|c: &mut Console<Ctx, C>, r: Vec<HistoryLine>| #[trigger]
            call_ensures(Console::<Ctx, C>::take_unsent, (c,), r) ==> line::line_views(r@)
                == (*c)@.unsent && (*final(c))@.unsent.len() == 0 && (*final(c))@.history
                == (*c)@.history,
        forall|c: &mut Console<Ctx, C>, on: bool, u: ()| #[trigger]
            call_ensures(Console::<Ctx, C>::set_mirrored, (c, on), u) ==> (*final(c))@.mirrored
                == on && (*final(c))@.unsent == (*c)@.unsent && (*final(c))@.history
                == (*c)@.history,
{
}

// ---------------------------------------------------------------------------
// Execution
// ---------------------------------------------------------------------------

/// The lines that a command's result adds: none for a success, one with the message for a
/// failure.
pub open spec fn result_lines(r: CommandResult) -> Seq<LineView> {
    match r {
        Ok(_) => seq![],
        Err(e) => seq![LineView { kind: LineKind::Error, text: "error: "@ + e.message@ }],
    }
}

/// The line that shows what was entered.
pub open spec fn entered_line(typed: Seq<char>) -> LineView {
    LineView { kind: LineKind::Input, text: "> "@ + typed }
}

/// Is the line the newest that is remembered, behind those that were, and is nothing half
/// completed or recalled?
pub open spec fn remembers<C>(v: ConsoleView<C>, w: ConsoleView<C>, typed: Seq<char>) -> bool {
    let old = v.input_history;
    let new = w.input_history;
    &&& new.len() > 0
    &&& new.last() == typed
    &&& old.len() > 0 && old.last() == typed ==> new == old
    &&& old.len() == 0 || old.last() != typed ==> {
        &&& new.drop_last().is_suffix_of(old)
        &&& new.len() == old.len() + 1 || new.len() == MAX_INPUT_HISTORY
    }
    &&& w.tab is None
    &&& w.input_history_pos is None
}

/// Is what executing does not touch as it was?
pub open spec fn keeps_the_rest<C>(v: ConsoleView<C>, w: ConsoleView<C>) -> bool {
    &&& w.binds == v.binds
    &&& w.toggle_key == v.toggle_key
    &&& w.input == v.input
    &&& w.open == v.open
    &&& w.pending_focus == v.pending_focus
    &&& w.status == v.status
    &&& w.user_defocused == v.user_defocused
    &&& w.pending_cursor_to_end == v.pending_cursor_to_end
    &&& w.mirrored == v.mirrored
}

/// What executing a line with these tokens may lead to. The line is echoed and remembered. A
/// registered command runs on the tokens behind its name. A name that nothing has leaves an
/// error that holds the name. The console's own commands go before registered ones of the
/// same name.
pub open spec fn execution_meets<Ctx, C: Command<Ctx>>(
    v: ConsoleView<C>,
    typed: Seq<char>,
    before: Ctx,
    w: ConsoleView<C>,
    after: Ctx,
) -> bool {
    let name = parse::tokens(typed)[0];
    let args = parse::tokens(typed).skip(1);
    &&& remembers(v, w, typed)
    &&& keeps_the_rest(v, w)
    &&& if name == "help"@ || name == "clear"@ || name == "detach"@ || name == "dock"@ {
        after == before && own_command_meets::<Ctx, C>(v, name, args, entered_line(typed), w)
    } else if v.registry().dom().contains(name) {
        command_meets::<Ctx, C>(v, name, args, entered_line(typed), before, w, after)
    } else {
        &&& after == before
        &&& w.commands == v.commands
        &&& w.detached == v.detached
        &&& shows(
            v,
            w,
            seq![
                entered_line(typed),
                LineView { kind: LineKind::Error, text: "no command '"@ + name + "'. try: help"@ },
            ],
        )
    }
}

/// The console's own commands clear it, dock it, detach it and describe commands.
pub open spec fn own_command_meets<Ctx, C: Command<Ctx>>(
    v: ConsoleView<C>,
    name: Seq<char>,
    args: Seq<Seq<char>>,
    echo: LineView,
    w: ConsoleView<C>,
) -> bool {
    &&& w.commands == v.commands
    &&& name == "clear"@ ==> w.history.len() == 0 && w.detached == v.detached && (v.mirrored
        ==> w.unsent == v.unsent.push(echo))
    &&& name == "detach"@ ==> w.detached && shows(
        v,
        w,
        seq![echo, LineView { kind: LineKind::System, text: "console detached"@ }],
    )
    &&& name == "dock"@ ==> !w.detached && shows(
        v,
        w,
        seq![echo, LineView { kind: LineKind::System, text: "console docked"@ }],
    )
    &&& name == "help"@ ==> w.detached == v.detached && exists|lines: Seq<LineView>|
        {
            &&& #[trigger] shows(v, w, seq![echo] + lines)
            &&& describes::<Ctx, C>(
                v,
                if args.len() > 0 {
                    Some(args[0])
                } else {
                    None
                },
                lines,
            )
        }
}

/// A registered command runs on its arguments; what it wrote, and its error, are shown behind
/// the echo, and no other command is touched.
pub open spec fn command_meets<Ctx, C: Command<Ctx>>(
    v: ConsoleView<C>,
    name: Seq<char>,
    args: Seq<Seq<char>>,
    echo: LineView,
    before: Ctx,
    w: ConsoleView<C>,
    after: Ctx,
) -> bool {
    &&& w.detached == v.detached
    &&& exists|lines: Seq<LineView>, r: CommandResult|
        {
            &&& #[trigger] v.registry()[name].effect(args, before, after, Seq::empty(), lines, r)
            &&& shows(v, w, seq![echo] + lines + result_lines(r))
        }
    &&& forall|other: Seq<char>|
        other != name && v.registry().dom().contains(other) ==> w.registry().dom().contains(other)
            && #[trigger] w.registry()[other] == v.registry()[other]
}

/// Is this what help prints? For a command, its name and description; for a name that none
/// has, an error with the name; else a heading and a row for each command.
pub open spec fn describes<Ctx, C: Command<Ctx>>(
    v: ConsoleView<C>,
    target: Option<Seq<char>>,
    lines: Seq<LineView>,
) -> bool {
    let own = target is Some && (target->0 == "help"@ || target->0 == "clear"@ || target->0
        == "detach"@ || target->0 == "dock"@);
    &&& target is None ==> lines.len() == v.commands.len() + 5 && lines[0].text == "commands:"@
        && lines[0].kind == LineKind::Output
    &&& target is Some ==> lines.len() == 1
    &&& target is Some && !own && v.registry().dom().contains(target->0) ==> lines[0].kind
        == LineKind::Output && lines[0].text == v.registry()[target->0].spec_name() + ": "@
        + v.registry()[target->0].spec_help()
    &&& target is Some && !own && !v.registry().dom().contains(target->0) ==> lines[0].kind
        == LineKind::Error && lines[0].text == "no command '"@ + target->0 + "'"@
    &&& own ==> lines[0].kind == LineKind::Output && (target->0 + ": "@).is_prefix_of(lines[0].text)
}

proof fn help_describes<Ctx, C: Command<Ctx>>(v: ConsoleView<C>, target: Option<Seq<char>>)
    ensures
        describes::<Ctx, C>(v, target, v.help_lines::<Ctx>(target)),
{
    laws::help_lists_every_command::<Ctx, C>(v);
    let lines = v.help_lines::<Ctx>(target);
    if target is Some {
        let b = builtin::builtin_named(target->0);
        if b is Some {
            let head = target->0 + ": "@;
            assert(lines[0].text == head + b->0.spec_help());
            assert(head =~= lines[0].text.subrange(0, head.len() as int));
        }
    }
}

proof fn remembered_remembers<C>(v: ConsoleView<C>, typed: Seq<char>)
    ensures
        remembers(v, v.echoed(typed), typed),
{
    let old = v.input_history;
    let new = v.remembered(typed);
    if old.len() == 0 || old.last() != typed {
        let all = old.push(typed);
        assert(new.drop_last() =~= old.subrange(old.len() - new.drop_last().len(), old.len() as int));
    }
}

proof fn shown_in_turn<C>(
    u: ConsoleView<C>,
    v: ConsoleView<C>,
    w: ConsoleView<C>,
    first: Seq<LineView>,
    second: Seq<LineView>,
)
    requires
        v.history == u.written(first).history,
        v.unsent == u.written(first).unsent,
        v.mirrored == u.mirrored,
        w.history == v.written(second).history,
        w.unsent == v.written(second).unsent,
    ensures
        shows(u, w, first + second),
{
    laws::scrollback_keeps_the_newest(u, first, second);
    assert(w.history == u.written(first).written(second).history);
    assert(u.unsent + first + second =~= u.unsent + (first + second));
    written_shows(u, first + second);
}

/// Executing a line does what its tokens ask for; a line of nothing but white space does
/// nothing.
pub proof fn lines_do_what_they_say<Ctx, C: Command<Ctx>>()
    ensures
        forall|c: &mut Console<Ctx, C>, line: &str, ctx: &mut Ctx, u: ()| #[trigger]
            call_ensures(Console::<Ctx, C>::execute, (c, line, ctx), u) && (*c).wf() ==> {
                &&& text::trimmed(line@).len() == 0 ==> (*final(c))@ == (*c)@ && *final(ctx) == *ctx
                &&& text::trimmed(line@).len() > 0 ==> execution_meets::<Ctx, C>(
                    (*c)@,
                    text::trimmed(line@),
                    *ctx,
                    (*final(c))@,
                    *final(ctx),
                )
            },
{
    assert forall|c: &mut Console<Ctx, C>, line: &str, ctx: &mut Ctx, u: ()| #[trigger]
        call_ensures(Console::<Ctx, C>::execute, (c, line, ctx), u) && (*c).wf() implies {
        &&& text::trimmed(line@).len() == 0 ==> (*final(c))@ == (*c)@ && *final(ctx) == *ctx
        &&& text::trimmed(line@).len() > 0 ==> execution_meets::<Ctx, C>(
            (*c)@,
            text::trimmed(line@),
            *ctx,
            (*final(c))@,
            *final(ctx),
        )
    } by {
        if text::trimmed(line@).len() > 0 {
            execution_is_met::<Ctx, C>((*c)@, line@, *ctx, (*final(c))@, *final(ctx));
        }
    }
}

proof fn names_differ()
    ensures
        "clear"@ != "help"@,
        "detach"@ != "help"@,
        "detach"@ != "clear"@,
        "dock"@ != "help"@,
        "dock"@ != "clear"@,
        "dock"@ != "detach"@,
{
    builtin::builtin_name_round_trips(Builtin::Help);
    builtin::builtin_name_round_trips(Builtin::Clear);
    builtin::builtin_name_round_trips(Builtin::Detach);
    builtin::builtin_name_round_trips(Builtin::Dock);
}

/// What every command shares: the memory of the line, and what it leaves alone.
proof fn execution_is_remembered<Ctx, C: Command<Ctx>>(
    v: ConsoleView<C>,
    line: Seq<char>,
    before: Ctx,
    w: ConsoleView<C>,
    after: Ctx,
)
    requires
        text::trimmed(line).len() > 0,
        model::executed::<Ctx, C>(v, line, before, w, after),
    ensures
        remembers(v, w, text::trimmed(line)),
        keeps_the_rest(v, w),
{
    let typed = text::trimmed(line);
    remembered_remembers(v, typed);
    let e = v.echoed(typed);
    assert(remembers(v, e, typed));
    assert(w.input_history == e.input_history);
    assert(keeps_the_rest(v, w));
}

#[verifier::rlimit(60)]
#[verifier::spinoff_prover]
proof fn own_execution_is_met<Ctx, C: Command<Ctx>>(
    v: ConsoleView<C>,
    line: Seq<char>,
    before: Ctx,
    w: ConsoleView<C>,
    after: Ctx,
    b: Builtin,
)
    requires
        v.wf(),
        text::trimmed(line).len() > 0,
        model::executed::<Ctx, C>(v, line, before, w, after),
        builtin::builtin_named(parse::tokens(text::trimmed(line))[0]) == Some(b),
    ensures
        execution_meets::<Ctx, C>(v, text::trimmed(line), before, w, after),
{
    let typed = text::trimmed(line);
    let name = parse::tokens(typed)[0];
    let args = parse::tokens(typed).skip(1);
    let echo = entered_line(typed);
    let e = v.echoed(typed);
    names_differ();
    execution_is_remembered::<Ctx, C>(v, line, before, w, after);
    let target = if args.len() > 0 {
        Some(args[0])
    } else {
        None
    };
    assert(w == e.after_builtin::<Ctx>(b, target));
    match b {
        Builtin::Help => {
            assert(name == "help"@);
            let lines = e.help_lines::<Ctx>(target);
            help_describes::<Ctx, C>(e, target);
            assert(describes::<Ctx, C>(v, target, lines));
            shown_in_turn(v, e, w, seq![echo], lines);
            assert(shows(v, w, seq![echo] + lines));
        },
        Builtin::Clear => {
            assert(name == "clear"@);
            assert(v.unsent + seq![echo] =~= v.unsent.push(echo));
        },
        Builtin::Detach => {
            assert(name == "detach"@);
            let l = LineView { kind: LineKind::System, text: "console detached"@ };
            shown_in_turn(v, e, w, seq![echo], seq![l]);
            assert(seq![echo] + seq![l] =~= seq![echo, l]);
        },
        Builtin::Dock => {
            assert(name == "dock"@);
            let l = LineView { kind: LineKind::System, text: "console docked"@ };
            shown_in_turn(v, e, w, seq![echo], seq![l]);
            assert(seq![echo] + seq![l] =~= seq![echo, l]);
        },
    }
}

#[verifier::rlimit(60)]
#[verifier::spinoff_prover]
proof fn unknown_execution_is_met<Ctx, C: Command<Ctx>>(
    v: ConsoleView<C>,
    line: Seq<char>,
    before: Ctx,
    w: ConsoleView<C>,
    after: Ctx,
)
    requires
        v.wf(),
        text::trimmed(line).len() > 0,
        model::executed::<Ctx, C>(v, line, before, w, after),
        builtin::builtin_named(parse::tokens(text::trimmed(line))[0]) is None,
        !v.registry().dom().contains(parse::tokens(text::trimmed(line))[0]),
    ensures
        execution_meets::<Ctx, C>(v, text::trimmed(line), before, w, after),
{
    let typed = text::trimmed(line);
    let name = parse::tokens(typed)[0];
    let echo = entered_line(typed);
    let e = v.echoed(typed);
    execution_is_remembered::<Ctx, C>(v, line, before, w, after);
    let l = LineView { kind: LineKind::Error, text: "no command '"@ + name + "'. try: help"@ };
    assert(w == e.written(seq![l]));
    shown_in_turn(v, e, w, seq![echo], seq![l]);
    assert(seq![echo] + seq![l] =~= seq![echo, l]);
}

#[verifier::rlimit(60)]
#[verifier::spinoff_prover]
proof fn registered_execution_is_met<Ctx, C: Command<Ctx>>(
    v: ConsoleView<C>,
    line: Seq<char>,
    before: Ctx,
    w: ConsoleView<C>,
    after: Ctx,
)
    requires
        v.wf(),
        text::trimmed(line).len() > 0,
        model::executed::<Ctx, C>(v, line, before, w, after),
        builtin::builtin_named(parse::tokens(text::trimmed(line))[0]) is None,
        v.registry().dom().contains(parse::tokens(text::trimmed(line))[0]),
    ensures
        execution_meets::<Ctx, C>(v, text::trimmed(line), before, w, after),
{
    let typed = text::trimmed(line);
    let name = parse::tokens(typed)[0];
    let args = parse::tokens(typed).skip(1);
    let echo = entered_line(typed);
    let e = v.echoed(typed);
    execution_is_remembered::<Ctx, C>(v, line, before, w, after);
    let (lines, r) = choose|lines: Seq<LineView>, r: CommandResult| #[trigger]
        v.registry()[name].effect(args, before, after, Seq::empty(), lines, r) && w == (
        ConsoleView { commands: w.commands, ..e.after_run(lines, r) });
    assert(model::error_lines(r) =~= result_lines(r));
    shown_in_turn(v, e, w, seq![echo], lines + result_lines(r));
    assert(seq![echo] + (lines + result_lines(r)) =~= seq![echo] + lines + result_lines(r));
    others_stay(v.commands, w.commands, name);
}

proof fn execution_is_met<Ctx, C: Command<Ctx>>(
    v: ConsoleView<C>,
    line: Seq<char>,
    before: Ctx,
    w: ConsoleView<C>,
    after: Ctx,
)
    requires
        v.wf(),
        text::trimmed(line).len() > 0,
        model::executed::<Ctx, C>(v, line, before, w, after),
    ensures
        execution_meets::<Ctx, C>(v, text::trimmed(line), before, w, after),
{
    let name = parse::tokens(text::trimmed(line))[0];
    match builtin::builtin_named(name) {
        Some(b) => {
            own_execution_is_met::<Ctx, C>(v, line, before, w, after, b);
        },
        None => {
            if v.registry().dom().contains(name) {
                registered_execution_is_met::<Ctx, C>(v, line, before, w, after);
            } else {
                unknown_execution_is_met::<Ctx, C>(v, line, before, w, after);
            }
        },
    }
}

proof fn others_stay<C>(a: Seq<(Seq<char>, C)>, b: Seq<(Seq<char>, C)>, name: Seq<char>)
    requires
        assoc::ascending(a),
        model::same_but(a, b, name),
    ensures
        forall|other: Seq<char>|
            other != name && assoc::as_map(a).dom().contains(other) ==> assoc::as_map(
                b,
            ).dom().contains(other) && #[trigger] assoc::as_map(b)[other]
                == assoc::as_map(a)[other],
{
    assoc::ascending_distinct(a);
    assert(assoc::distinct_keys(b)) by {
        assert forall|i: int, j: int| 0 <= i < j < b.len() implies #[trigger] b[i].0
            != #[trigger] b[j].0 by {
            assert(a[i].0 == b[i].0);
            assert(a[j].0 == b[j].0);
        }
    }
    assert forall|other: Seq<char>|
        other != name && assoc::as_map(a).dom().contains(
            other,
        ) implies assoc::as_map(b).dom().contains(other) && #[trigger] assoc::as_map(
        b,
    )[other] == assoc::as_map(a)[other] by {
        assert(assoc::has_key(a, other));
        let i = assoc::place_of(a, other);
        assert(a[i].0 == b[i].0);
        assert(a[i] == b[i]);
        assoc::as_map_at(a, i);
        assoc::as_map_at(b, i);
    }
}

/// Enter executes what the input line holds, as if it had been executed with a blank one.
pub proof fn enter_executes_the_input<Ctx, C: Command<Ctx>>()
    ensures
        forall|c: &mut Console<Ctx, C>, ctx: &mut Ctx, u: ()| #[trigger]
            call_ensures(Console::<Ctx, C>::submit, (c, ctx), u) && (*c).wf() ==> {
                let v = ConsoleView { input: Seq::<char>::empty(), ..(*c)@ };
                &&& (*final(c))@.input.len() == 0
                &&& text::trimmed((*c)@.input).len() == 0 ==> (*final(c))@ == v && *final(ctx)
                    == *ctx
                &&& text::trimmed((*c)@.input).len() > 0 ==> execution_meets::<Ctx, C>(
                    v,
                    text::trimmed((*c)@.input),
                    *ctx,
                    (*final(c))@,
                    *final(ctx),
                )
            },
{
    assert forall|c: &mut Console<Ctx, C>, ctx: &mut Ctx, u: ()| #[trigger]
        call_ensures(Console::<Ctx, C>::submit, (c, ctx), u) && (*c).wf() implies {
        let v = ConsoleView { input: Seq::<char>::empty(), ..(*c)@ };
        &&& (*final(c))@.input.len() == 0
        &&& text::trimmed((*c)@.input).len() == 0 ==> (*final(c))@ == v && *final(ctx) == *ctx
        &&& text::trimmed((*c)@.input).len() > 0 ==> execution_meets::<Ctx, C>(
            v,
            text::trimmed((*c)@.input),
            *ctx,
            (*final(c))@,
            *final(ctx),
        )
    } by {
        let v = ConsoleView { input: Seq::<char>::empty(), ..(*c)@ };
        if text::trimmed((*c)@.input).len() > 0 {
            execution_is_met::<Ctx, C>(v, (*c)@.input, *ctx, (*final(c))@, *final(ctx));
        }
    }
}

// ---------------------------------------------------------------------------
// Completion
// ---------------------------------------------------------------------------

/// What is being completed follows from the line's tokens: the first token names the command,
/// the last is what is typed of an argument, and those between are the arguments before it;
/// where the last token is finished, nothing is typed of the next. In a line without quotes
/// white space at the end is what finishes it.
pub open spec fn context_meets(input: Seq<char>, ctx: Option<ContextView>) -> bool {
    let toks = parse::tokens(input);
    &&& ctx is None <==> toks.len() == 0
    &&& ctx matches Some(ContextView::Command { prefix }) ==> toks == seq![prefix]
    &&& ctx matches Some(ContextView::Arg { cmd_name, arg_index, prior, prefix }) ==> {
        &&& arg_index == prior.len()
        &&& toks == seq![cmd_name] + prior + seq![prefix] || (prefix.len() == 0 && toks
            == seq![cmd_name] + prior)
    }
    &&& laws::quote_free(input) && toks.len() > 0 && text::is_space(input.last()) ==> (ctx
        matches Some(ContextView::Arg { cmd_name, arg_index, prior, prefix }) && toks
        == seq![cmd_name] + prior && prefix.len() == 0)
    &&& laws::quote_free(input) && toks.len() == 1 && !text::is_space(input.last()) ==> ctx
        == Some(ContextView::Command { prefix: toks[0] })
    &&& laws::quote_free(input) && toks.len() > 1 && !text::is_space(input.last()) ==> (ctx
        matches Some(ContextView::Arg { cmd_name, arg_index, prior, prefix }) && toks
        == seq![cmd_name] + prior + seq![prefix])
}

/// The context of a completion is what the line says.
pub proof fn contexts_follow_the_line()
    ensures
        forall|input: &str, r: Option<CompletionContext>| #[trigger]
            call_ensures(completion::find_context, (input,), r) ==> context_meets(
                input@,
                match r {
                    Some(c) => Some(c@),
                    None => None,
                },
            ),
{
    assert forall|input: &str, r: Option<CompletionContext>| #[trigger]
        call_ensures(completion::find_context, (input,), r) implies context_meets(
        input@,
        match r {
            Some(c) => Some(c@),
            None => None,
        },
    ) by {
        context_is_met(input@);
    }
}

proof fn context_is_met(input: Seq<char>)
    ensures
        context_meets(input, completion::context_of(input)),
{
    let toks = parse::tokens(input);
    let n = toks.len() as int;
    if n > 0 {
        assert(seq![toks[0]] + toks.skip(1) =~= toks);
        if n == 1 {
            assert(toks =~= seq![toks[0]]);
        } else {
            assert(seq![toks[0]] + toks.subrange(1, n - 1) + seq![toks.last()] =~= toks);
        }
        if laws::quote_free(input) {
            laws::plain_text_partial(input);
        }
    }
}

/// A choice goes where the user is completing: a command name stands for the whole line; an
/// argument stands behind what was finished, in the place of what was typed of it.
pub proof fn choices_go_where_one_completes(head: Seq<char>, typed: Seq<char>)
    requires
        laws::quote_free(head + typed),
        laws::spaceless(typed),
        head.len() > 0 && text::is_space(head.last()),
    ensures
        forall|input: &str, ctx: &CompletionContext, choice: &str, r: String| #[trigger]
            call_ensures(completion::apply_completion, (input, ctx, choice), r) ==> {
                &&& ctx@ is Command ==> r@ == choice@
                &&& ctx@ is Arg && input@ == head + typed ==> r@ == head + choice@
            },
{
    laws::plain_partial_start(head, typed);
    assert((head + typed).take(head.len() as int) =~= head);
}

/// Tab puts the first match where the user is completing, and starts a cycle where there are
/// more; without a match it changes nothing. A line without tokens completes any command. A
/// further Tab takes the next match, the first again behind the last, for the line as it was
/// typed.
pub proof fn tab_takes_match_after_match<Ctx, C: Command<Ctx>>()
    ensures
        forall|c: &mut Console<Ctx, C>, u: ()| #[trigger]
            call_ensures(Console::<Ctx, C>::tab_complete, (c,), u) && (*c).wf() ==> {
                let v = (*c)@;
                let w = (*final(c))@;
                let found = completion::context_of(v.input);
                let ctx = if found is Some {
                    found->0
                } else {
                    ContextView::Command { prefix: Seq::empty() }
                };
                let m = v.matches::<Ctx>(ctx);
                &&& v.tab is None && m.len() == 0 ==> w == v
                &&& v.tab is None && m.len() > 0 ==> {
                    &&& w.input == completion::applied(v.input, ctx, m[0])
                    &&& w.pending_cursor_to_end
                    &&& w.tab is Some <==> m.len() > 1
                    &&& w.tab is Some ==> w.tab->0.matches == m && w.tab->0.index == 0
                        && w.tab->0.typed == v.input && w.tab->0.ctx == ctx
                }
                &&& v.tab is Some ==> {
                    let t = v.tab->0;
                    let x = w.tab->0;
                    &&& w.tab is Some
                    &&& x.matches == t.matches && x.typed == t.typed && x.ctx == t.ctx
                    &&& x.index == t.index + 1 || (x.index == 0 && t.index + 1 == t.matches.len())
                    &&& x.index < t.matches.len()
                    &&& w.input == completion::applied(t.typed, t.ctx, t.matches[x.index as int])
                    &&& w.pending_cursor_to_end
                }
                &&& w == (ConsoleView {
                    input: w.input,
                    tab: w.tab,
                    pending_cursor_to_end: w.pending_cursor_to_end,
                    ..v
                })
            },
{
    assert forall|c: &mut Console<Ctx, C>, u: ()| #[trigger]
        call_ensures(Console::<Ctx, C>::tab_complete, (c,), u) && (*c).wf() implies ({
        let v = (*c)@;
        let w = (*final(c))@;
        v.tab is Some ==> w.tab is Some && w.tab->0.index < v.tab->0.matches.len() && (
        w.tab->0.index == v.tab->0.index + 1 || (w.tab->0.index == 0 && v.tab->0.index + 1
            == v.tab->0.matches.len()))
    }) by {
        let v = (*c)@;
        if v.tab is Some {
            let n = v.tab->0.matches.len() as int;
            let i = v.tab->0.index as int + 1;
            if i < n {
                vstd::arithmetic::div_mod::lemma_small_mod(i as nat, n as nat);
            } else {
                vstd::arithmetic::div_mod::lemma_mod_self_0(n);
            }
        }
    }
}

/// The preview is what the first match has beyond what is typed; there is none where there is
/// no match or no more of it.
pub proof fn preview_is_the_rest_of_the_first_match<Ctx, C: Command<Ctx>>()
    ensures
        forall|c: &Console<Ctx, C>, r: Option<String>| #[trigger]
            call_ensures(Console::<Ctx, C>::tab_preview, (c,), r) && c.wf() ==> {
                let found = completion::context_of(c@.input);
                let m = c@.matches::<Ctx>(found->0);
                let typed = found->0.spec_prefix();
                &&& found is None || m.len() == 0 ==> r is None
                &&& found is Some && m.len() > 0 && m[0] == typed ==> r is None
                &&& found is Some && m.len() > 0 && m[0] != typed ==> r is Some && typed + r->0@
                    == m[0] && r->0@.len() > 0
            },
{
    assert forall|c: &Console<Ctx, C>, r: Option<String>| #[trigger]
        call_ensures(Console::<Ctx, C>::tab_preview, (c,), r) && c.wf() implies {
        let found = completion::context_of(c@.input);
        let m = c@.matches::<Ctx>(found->0);
        let typed = found->0.spec_prefix();
        &&& found is None || m.len() == 0 ==> r is None
        &&& found is Some && m.len() > 0 && m[0] == typed ==> r is None
        &&& found is Some && m.len() > 0 && m[0] != typed ==> r is Some && typed + r->0@ == m[0]
            && r->0@.len() > 0
    } by {
        let found = completion::context_of(c@.input);
        let m = c@.matches::<Ctx>(found->0);
        let typed = found->0.spec_prefix();
        if found is Some && m.len() > 0 {
            laws::completions_extend_the_prefix::<Ctx, C>(c@, found->0, 0);
            let k = typed.len() as int;
            assert(m[0] =~= m[0].take(k) + m[0].skip(k));
            if m[0].len() == k {
                assert(m[0].take(k) =~= m[0]);
            }
        }
    }
}

// ---------------------------------------------------------------------------
// Keys and the panel
// ---------------------------------------------------------------------------

/// Binding a key and releasing it touch that key alone.
pub proof fn binds_are_kept<Ctx, C: Command<Ctx>>()
    ensures
        forall|c: &mut Console<Ctx, C>, key: Key, line: &str, u: ()| #[trigger]
            call_ensures(Console::<Ctx, C>::bind, (c, key, line), u) && (*c).wf() ==> {
                &&& (*final(c))@.binds.dom().contains(key)
                &&& (*final(c))@.binds[key] == line@
                &&& forall|other: Key|
                    other != key ==> (#[trigger] (*final(c))@.binds.dom().contains(other) <==> (
                    *c)@.binds.dom().contains(other)) && (*final(c))@.binds[other] == (
                    *c)@.binds[other]
            },
        forall|c: &mut Console<Ctx, C>, key: Key, u: ()| #[trigger]
            call_ensures(Console::<Ctx, C>::unbind, (c, key), u) && (*c).wf() ==> {
                &&& !(*final(c))@.binds.dom().contains(key)
                &&& forall|other: Key|
                    other != key ==> (#[trigger] (*final(c))@.binds.dom().contains(other) <==> (
                    *c)@.binds.dom().contains(other))
            },
{
}

/// Is the line bound to a pressed key?
pub open spec fn is_called_up(
    binds: Map<Key, Seq<char>>,
    pressed: Seq<Key>,
    line: Seq<char>,
) -> bool {
    exists|key: Key|
        pressed.contains(key) && #[trigger] binds.dom().contains(key) && binds[key] == line
}

/// A pressed key calls up the line that is bound to it: each is among the lines, and there
/// are no others.
pub proof fn pressed_keys_call_up_their_lines<Ctx, C: Command<Ctx>>()
    ensures
        forall|c: &Console<Ctx, C>, pressed: &Vec<Key>, r: Vec<String>| #[trigger]
            call_ensures(Console::<Ctx, C>::bound_lines, (c, pressed), r) && c.wf() ==> {
                let lines = text::views(r@);
                &&& forall|key: Key|
                    pressed@.contains(key) && #[trigger] c@.binds.dom().contains(key)
                        ==> lines.contains(c@.binds[key])
                &&& forall|i: int|
                    0 <= i < lines.len() ==> is_called_up(c@.binds, pressed@, #[trigger] lines[i])
                &&& lines.len() <= c.binds@.len()
            },
{
    assert forall|c: &Console<Ctx, C>, pressed: &Vec<Key>, r: Vec<String>| #[trigger]
        call_ensures(Console::<Ctx, C>::bound_lines, (c, pressed), r) && c.wf() implies {
        let lines = text::views(r@);
        &&& forall|key: Key|
            pressed@.contains(key) && #[trigger] c@.binds.dom().contains(key) ==> lines.contains(
                c@.binds[key],
            )
        &&& forall|i: int|
            0 <= i < lines.len() ==> is_called_up(c@.binds, pressed@, #[trigger] lines[i])
        &&& lines.len() <= c.binds@.len()
    } by {
        let binds = bind_slots(c.binds@);
        let lines = text::views(r@);
        fired_members(binds, pressed@);
        assert forall|key: Key|
            pressed@.contains(key) && #[trigger] c@.binds.dom().contains(key) implies lines.contains(
            c@.binds[key],
        ) by {
            assert(assoc::has_key(binds, key));
            let j = assoc::place_of(binds, key);
            assoc::as_map_at(binds, j);
            assert(pressed@.contains(binds[j].0));
        }
        assert forall|i: int| 0 <= i < lines.len() implies is_called_up(
            c@.binds,
            pressed@,
            #[trigger] lines[i],
        ) by {
            assert(is_fired(binds, pressed@, lines[i]));
            let j = choose|j: int|
                0 <= j < binds.len() && pressed@.contains((#[trigger] binds[j]).0) && binds[j].1
                    == lines[i];
            assoc::as_map_at(binds, j);
            assert(c@.binds[binds[j].0] == lines[i]);
        }
    }
}

/// Is the line that of a pressed key?
spec fn is_fired(binds: Seq<(Key, Seq<char>)>, pressed: Seq<Key>, line: Seq<char>) -> bool {
    exists|j: int|
        0 <= j < binds.len() && pressed.contains((#[trigger] binds[j]).0) && binds[j].1 == line
}

proof fn fired_members(binds: Seq<(Key, Seq<char>)>, pressed: Seq<Key>)
    ensures
        crate::console::fired(binds, pressed).len() <= binds.len(),
        forall|j: int|
            0 <= j < binds.len() && pressed.contains((#[trigger] binds[j]).0)
                ==> crate::console::fired(binds, pressed).contains(binds[j].1),
        forall|i: int|
            0 <= i < crate::console::fired(binds, pressed).len() ==> is_fired(
                binds,
                pressed,
                #[trigger] crate::console::fired(binds, pressed)[i],
            ),
    decreases binds.len(),
{
    if binds.len() > 0 {
        let d = binds.drop_last();
        let before = crate::console::fired(d, pressed);
        let lines = crate::console::fired(binds, pressed);
        fired_members(d, pressed);
        assert forall|j: int|
            0 <= j < binds.len() && pressed.contains((#[trigger] binds[j]).0) implies lines.contains(
            binds[j].1,
        ) by {
            if j < d.len() {
                assert(d[j] == binds[j]);
                let i = choose|i: int| 0 <= i < before.len() && before[i] == d[j].1;
                assert(lines[i] == binds[j].1);
            } else {
                assert(lines[lines.len() - 1] == binds[j].1);
            }
        }
        assert forall|i: int| 0 <= i < lines.len() implies is_fired(
            binds,
            pressed,
            #[trigger] lines[i],
        ) by {
            if i < before.len() {
                assert(is_fired(d, pressed, before[i]));
                let j = choose|j: int|
                    0 <= j < d.len() && pressed.contains((#[trigger] d[j]).0) && d[j].1
                        == before[i];
                assert(binds[j] == d[j]);
                assert(pressed.contains(binds[j].0));
            } else {
                assert(pressed.contains(binds[binds.len() - 1].0));
            }
        }
    }
}

/// The keys of the panel do what they are for, in any combination: Escape closes it and
/// nothing else does; clearing leaves no lines, or no input; and without them Up and Down
/// recall, and Tab completes.
pub proof fn panel_keys_do_their_work<Ctx, C: Command<Ctx>>()
    ensures
        forall|c: &mut Console<Ctx, C>, k: PanelKeys, u: ()| #[trigger]
            call_ensures(Console::<Ctx, C>::handle_panel_keys, (c, k), u) && (*c).wf() ==> {
                let v = (*c)@;
                let w = (*final(c))@;
                &&& w.open == (v.open && !k.escape)
                &&& w.history == (if k.clear_history {
                    Seq::empty()
                } else {
                    v.history
                })
                &&& k.clear_input ==> w.input.len() == 0 && w.input_history_pos is None
                    && w.tab is None
                &&& w.input_history == v.input_history
                &&& w.commands == v.commands && w.binds == v.binds
                &&& !k.clear_input && !k.up && !k.down && !k.tab ==> w.input == v.input
                    && w.input_history_pos == v.input_history_pos && w.tab == v.tab
                &&& !k.clear_input && k.up && !k.down && !k.tab && v.input_history.len() > 0 ==> {
                    let at = w.input_history_pos;
                    &&& at is Some && at->0 < v.input_history.len()
                    &&& w.input == v.input_history[at->0 as int]
                    &&& v.input_history_pos is None ==> at->0 == v.input_history.len() - 1
                    &&& v.input_history_pos is Some && v.input_history_pos->0 > 0 ==> at->0
                        == v.input_history_pos->0 - 1
                    &&& v.input_history_pos is Some && v.input_history_pos->0 == 0 ==> at->0 == 0
                }
                &&& !k.clear_input && !k.up && k.down && !k.tab && v.input_history_pos is Some ==> {
                    let at = v.input_history_pos->0;
                    &&& at + 1 < v.input_history.len() ==> w.input == v.input_history[at as int + 1]
                        && w.input_history_pos == Some((at + 1) as nat)
                    &&& at + 1 == v.input_history.len() ==> w.input.len() == 0
                        && w.input_history_pos is None
                }
                &&& !k.clear_input && !k.up && k.down && !k.tab && v.input_history_pos is None
                    ==> w.input == v.input
            },
{
    reveal(crate::console::after_recall);
    reveal(crate::console::after_clear);
}

/// What the text field holds is the input; an edit ends a cycle of completions, and typing
/// into a blank line ends recalling.
pub proof fn edits_are_taken_over<Ctx, C: Command<Ctx>>()
    ensures
        forall|c: &mut Console<Ctx, C>, t: &str, u: ()| #[trigger]
            call_ensures(Console::<Ctx, C>::edit_input, (c, t), u) ==> {
                let v = (*c)@;
                let w = (*final(c))@;
                &&& w.input == t@
                &&& t@ == v.input ==> w == v
                &&& t@ != v.input ==> w.tab is None
                &&& t@ != v.input && v.input.len() == 0 ==> w.input_history_pos is None
                &&& v.input.len() > 0 ==> w.input_history_pos == v.input_history_pos
                &&& w.history == v.history && w.input_history == v.input_history && w.open == v.open
            },
{
}

/// Opening calls for the focus once. A docked console keeps it while the user has not clicked
/// elsewhere; a detached one does not ask again.
pub proof fn focus_is_asked_for_in_time<Ctx, C: Command<Ctx>>()
    ensures
        forall|c: &mut Console<Ctx, C>, has_focus: bool, r: bool| #[trigger]
            call_ensures(Console::<Ctx, C>::take_focus, (c, has_focus), r) ==> {
                let v = (*c)@;
                &&& !(*final(c))@.pending_focus
                &&& v.pending_focus ==> r
                &&& !v.pending_focus && has_focus ==> !r
                &&& !v.pending_focus && !has_focus ==> (r <==> !v.detached && !v.user_defocused)
            },
        forall|c: &mut Console<Ctx, C>, u: ()| #[trigger]
            call_ensures(Console::<Ctx, C>::open, (c,), u) ==> {
                &&& (*final(c))@.open
                &&& !(*c)@.open ==> (*final(c))@.pending_focus && !(*final(c))@.user_defocused
                &&& (*c)@.open ==> (*final(c))@ == (*c)@
            },
        forall|c: &mut Console<Ctx, C>, u: ()| #[trigger]
            call_ensures(Console::<Ctx, C>::close, (c,), u) ==> !(*final(c))@.open && (*final(c))@.input
                == (*c)@.input,
        forall|c: &mut Console<Ctx, C>, u: ()| #[trigger]
            call_ensures(Console::<Ctx, C>::toggle, (c,), u) ==> (*final(c))@.open == !(*c)@.open && (
            !(*c)@.open ==> (*final(c))@.pending_focus),
        forall|c: &mut Console<Ctx, C>, inside: bool, u: ()| #[trigger]
            call_ensures(Console::<Ctx, C>::pointer_pressed, (c, inside), u) ==> (*final(c))@.user_defocused
                == !inside,
        forall|c: &mut Console<Ctx, C>, r: bool| #[trigger]
            call_ensures(Console::<Ctx, C>::take_cursor_to_end, (c,), r) ==> r == (
            *c)@.pending_cursor_to_end && !(*final(c))@.pending_cursor_to_end,
        forall|c: &Console<Ctx, C>, slid_in: bool, r: bool| #[trigger]
            call_ensures(Console::<Ctx, C>::is_visible, (c, slid_in), r) ==> {
                &&& c@.detached ==> r == c@.open
                &&& !c@.detached ==> r == slid_in
            },
{
}

/// A registered command is found under its name, in the place of one of that name before it,
/// and no other is touched.
pub proof fn registered_commands_are_found<Ctx, C: Command<Ctx>>()
    ensures
        forall|c: &mut Console<Ctx, C>, command: C, u: ()| #[trigger]
            call_ensures(Console::<Ctx, C>::register, (c, command), u) && (*c).wf() ==> {
                let v = (*c)@;
                let w = (*final(c))@;
                &&& w.registry().dom().contains(command.spec_name())
                &&& w.registry()[command.spec_name()] == command
                &&& forall|other: Seq<char>|
                    other != command.spec_name() ==> (#[trigger] w.registry().dom().contains(other)
                        <==> v.registry().dom().contains(other)) && w.registry()[other]
                        == v.registry()[other]
                &&& w.history == v.history && w.binds == v.binds && w.input == v.input
            },
        forall|c: &Console<Ctx, C>, name: &str, r: bool| #[trigger]
            call_ensures(Console::<Ctx, C>::has_command, (c, name), r) && c.wf() ==> {
                &&& c@.registry().dom().contains(name@) ==> r
                &&& name@ == "help"@ || name@ == "clear"@ ==> r
                &&& r ==> c@.registry().dom().contains(name@) || name@ == "help"@ || name@
                    == "clear"@
            },
{
}

/// A line that is typed with every token in quotes reaches a command token for token: the first
/// is the name, the others are the arguments, whatever they hold.
pub proof fn quoted_tokens_arrive(args: Seq<Seq<char>>)
    ensures
        forall|line: &str, r: Vec<String>| #[trigger]
            call_ensures(parse::tokenize, (line,), r) && line@ == laws::quoted_line(args)
                ==> text::views(r@) == args,
        forall|line: &str, r: Option<(String, Vec<String>)>| #[trigger]
            call_ensures(parse::parse_line, (line,), r) && line@ == laws::quoted_line(args) ==> {
                &&& r is None <==> args.len() == 0
                &&& r is Some ==> (r->0).0@ == args[0] && text::views((r->0).1@) == args.skip(1)
            },
        forall|line: &str, r: (Vec<String>, usize)| #[trigger]
            call_ensures(parse::tokenize_partial, (line,), r) && line@ == laws::quoted_line(args)
                ==> text::views(r.0@) == args,
{
    laws::quoting_round_trips(args);
    assert forall|line: &str, r: Option<(String, Vec<String>)>| #[trigger]
        call_ensures(parse::parse_line, (line,), r) && line@ == laws::quoted_line(args) implies {
        &&& r is None <==> args.len() == 0
        &&& r is Some ==> (r->0).0@ == args[0] && text::views((r->0).1@) == args.skip(1)
    } by {
        if r is Some {
            let rest = text::views((r->0).1@);
            assert(args == seq![(r->0).0@] + rest);
            assert(args.skip(1) =~= rest);
            assert(args[0] == (r->0).0@);
        }
    }
}

/// Up and Down recall: Up takes the line before the one that is shown, the newest first, and
/// stays at the oldest; Down takes the one behind it, and behind the newest a blank line.
pub proof fn recalled_lines_are_shown<Ctx, C: Command<Ctx>>()
    ensures
        forall|c: &mut Console<Ctx, C>, u: ()| #[trigger]
            call_ensures(Console::<Ctx, C>::history_prev, (c,), u) && (*c).wf() ==> {
                let v = (*c)@;
                let w = (*final(c))@;
                let lines = v.input_history;
                &&& lines.len() == 0 ==> w == v
                &&& lines.len() > 0 && v.input_history_pos is None ==> w.input == lines.last()
                    && w.input_history_pos == Some((lines.len() - 1) as nat)
                &&& lines.len() > 0 && v.input_history_pos is Some && v.input_history_pos->0 > 0
                    ==> w.input == lines[v.input_history_pos->0 - 1] && w.input_history_pos == Some(
                    (v.input_history_pos->0 - 1) as nat,
                )
                &&& lines.len() > 0 && v.input_history_pos == Some(0nat) ==> w.input == lines[0]
                    && w.input_history_pos == Some(0nat)
                &&& lines.len() > 0 ==> w.pending_cursor_to_end && w.tab is None
                &&& w.input_history == lines && w.history == v.history
            },
        forall|c: &mut Console<Ctx, C>, u: ()| #[trigger]
            call_ensures(Console::<Ctx, C>::history_next, (c,), u) && (*c).wf() ==> {
                let v = (*c)@;
                let w = (*final(c))@;
                let lines = v.input_history;
                &&& v.input_history_pos is None ==> w == v
                &&& v.input_history_pos is Some && v.input_history_pos->0 + 1 < lines.len()
                    ==> w.input == lines[v.input_history_pos->0 as int + 1] && w.input_history_pos == Some(
                    (v.input_history_pos->0 + 1) as nat,
                )
                &&& v.input_history_pos is Some && v.input_history_pos->0 + 1 == lines.len()
                    ==> w.input.len() == 0 && w.input_history_pos is None
                &&& v.input_history_pos is Some ==> w.pending_cursor_to_end && w.tab is None
                &&& w.input_history == lines && w.history == v.history
            },
{
}

/// The simple switches of the console do what they are called.
pub proof fn console_switches_work<Ctx, C: Command<Ctx>>()
    ensures
        forall|c: &mut Console<Ctx, C>, u: ()| #[trigger]
            call_ensures(Console::<Ctx, C>::detach, (c,), u) ==> (*final(c))@.detached && (
            *final(c))@.open == (*c)@.open && (*final(c))@.history == (*c)@.history,
        forall|c: &mut Console<Ctx, C>, u: ()| #[trigger]
            call_ensures(Console::<Ctx, C>::dock, (c,), u) ==> !(*final(c))@.detached && (
            *final(c))@.open == (*c)@.open && (*final(c))@.history == (*c)@.history,
        forall|c: &mut Console<Ctx, C>, t: &str, u: ()| #[trigger]
            call_ensures(Console::<Ctx, C>::set_status, (c, t), u) ==> (*final(c))@.status == t@ && (
            *final(c))@.history == (*c)@.history,
        forall|c: &Console<Ctx, C>, r: bool| #[trigger]
            call_ensures(Console::<Ctx, C>::is_open, (c,), r) ==> r == c@.open,
        forall|c: &Console<Ctx, C>, r: bool| #[trigger]
            call_ensures(Console::<Ctx, C>::is_detached, (c,), r) ==> r == c@.detached,
        forall|c: Console<Ctx, C>, key: Key, r: Console<Ctx, C>| #[trigger]
            call_ensures(Console::<Ctx, C>::with_toggle_key, (c, key), r) ==> r@.toggle_key == key
                && r@.commands == c@.commands && r@.binds == c@.binds,
        forall|r: Console<Ctx, C>| #[trigger]
            call_ensures(Console::<Ctx, C>::new, (), r) ==> !r@.open && !r@.detached && r@.history.len()
                == 0 && r@.input.len() == 0 && r@.commands.len() == 0 && r@.toggle_key
                == Key::Backtick && !r@.mirrored,
{
}

/// The names that are listed are those of all commands: the registered ones and the console's
/// own, in order.
pub proof fn all_names_are_listed<Ctx, C: Command<Ctx>>()
    ensures
        forall|c: &Console<Ctx, C>, r: Vec<String>| #[trigger]
            call_ensures(Console::<Ctx, C>::all_command_names, (c,), r) && c.wf() ==> {
                let names = text::views(r@);
                &&& forall|name: Seq<char>| #[trigger]
                    laws::times(names, name) == laws::own_commands(name) + (
                    if c@.registry().dom().contains(name) {
                        1nat
                    } else {
                        0nat
                    })
                &&& forall|i: int, j: int|
                    0 <= i < j < names.len() ==> !text::lex_lt(
                        #[trigger] names[j],
                        #[trigger] names[i],
                    )
            },
{
    assert forall|c: &Console<Ctx, C>, r: Vec<String>| #[trigger]
        call_ensures(Console::<Ctx, C>::all_command_names, (c,), r) && c.wf() implies {
        let names = text::views(r@);
        &&& forall|name: Seq<char>| #[trigger]
            laws::times(names, name) == laws::own_commands(name) + (
            if c@.registry().dom().contains(name) {
                1nat
            } else {
                0nat
            })
        &&& forall|i: int, j: int|
            0 <= i < j < names.len() ==> !text::lex_lt(#[trigger] names[j], #[trigger] names[i])
    } by {
        laws::names_are_those_of_all_commands(c@);
    }
}

/// Help and the lines of a command are shown behind all others.
pub proof fn results_are_shown<Ctx, C: Command<Ctx>>()
    ensures
        forall|c: &mut Console<Ctx, C>, target: Option<&str>, u: ()| #[trigger]
            call_ensures(Console::<Ctx, C>::builtin_help, (c, target), u) && (*c).wf()
                ==> exists|lines: Seq<LineView>|
                {
                    &&& #[trigger] only_shows((*c)@, (*final(c))@, lines)
                    &&& describes::<Ctx, C>(
                        (*c)@,
                        match target {
                            Some(t) => Some(t@),
                            None => None,
                        },
                        lines,
                    )
                },
        forall|c: &mut Console<Ctx, C>, w: ConsoleWriter, result: CommandResult, u: ()| #[trigger]
            call_ensures(Console::<Ctx, C>::drain_output, (c, w, result), u) && (*c).wf()
                ==> only_shows((*c)@, (*final(c))@, w@ + result_lines(result)),
{
    assert forall|c: &mut Console<Ctx, C>, target: Option<&str>, u: ()| #[trigger]
        call_ensures(
            Console::<Ctx, C>::builtin_help,
            (c, target),
            u,
        ) && (*c).wf() implies exists|lines: Seq<LineView>|
        {
            &&& #[trigger] only_shows((*c)@, (*final(c))@, lines)
            &&& describes::<Ctx, C>(
                (*c)@,
                match target {
                    Some(t) => Some(t@),
                    None => None,
                },
                lines,
            )
        } by {
        let t = match target {
            Some(t) => Some(t@),
            None => None,
        };
        let lines = (*c)@.help_lines::<Ctx>(t);
        help_describes::<Ctx, C>((*c)@, t);
        written_shows((*c)@, lines);
        assert(only_shows((*c)@, (*final(c))@, lines));
    }
    assert forall|c: &mut Console<Ctx, C>, w: ConsoleWriter, result: CommandResult, u: ()| #[trigger]
        call_ensures(
            Console::<Ctx, C>::drain_output,
            (c, w, result),
            u,
        ) && (*c).wf() implies only_shows((*c)@, (*final(c))@, w@ + result_lines(result)) by {
        assert(model::error_lines(result) =~= result_lines(result));
        written_shows((*c)@, w@ + result_lines(result));
    }
}

/// A frame's keys go to one place: the toggle key opens and closes the console; while it is open
/// the keys are the panel's and run nothing, and while it is closed each key runs what is bound
/// to it.
pub proof fn frame_keys_go_to_one_place<Ctx, C: Command<Ctx>>()
    ensures
        forall|c: &mut Console<Ctx, C>, keys: &FrameKeys, ctx: &mut Ctx, u: ()| #[trigger]
            call_ensures(Console::<Ctx, C>::ui, (c, keys, ctx), u) && (*c).wf() ==> {
                let v = (*c)@;
                let w = (*final(c))@;
                let open = v.open != keys.toggle;
                &&& open ==> *final(ctx) == *ctx && w.open == !keys.panel.escape
                    && w.input_history == v.input_history
                &&& !open && keys.pressed@.len() == 0 ==> *final(ctx) == *ctx && !w.open && w.history
                    == v.history && w.input == v.input
            },
{
    reveal(crate::console::after_recall);
    reveal(crate::console::after_clear);
    assert forall|c: &mut Console<Ctx, C>, keys: &FrameKeys, ctx: &mut Ctx, u: ()| #[trigger]
        call_ensures(Console::<Ctx, C>::ui, (c, keys, ctx), u) && (*c).wf() implies {
        let v = (*c)@;
        let w = (*final(c))@;
        let open = v.open != keys.toggle;
        &&& open ==> *final(ctx) == *ctx && w.open == !keys.panel.escape && w.input_history
            == v.input_history
        &&& !open && keys.pressed@.len() == 0 ==> *final(ctx) == *ctx && !w.open && w.history
            == v.history && w.input == v.input
    } by {
        let binds = bind_slots((*c).binds@);
        if keys.pressed@.len() == 0 {
            nothing_fires(binds, keys.pressed@);
        }
    }
}

proof fn nothing_fires(binds: Seq<(Key, Seq<char>)>, pressed: Seq<Key>)
    requires
        pressed.len() == 0,
    ensures
        crate::console::fired(binds, pressed).len() == 0,
    decreases binds.len(),
{
    if binds.len() > 0 {
        nothing_fires(binds.drop_last(), pressed);
    }
}

/// Of a list the texts that begin with a prefix are kept, each as often as it is there.
pub proof fn prefixed_texts_are_kept()
    ensures
        forall|v: &Vec<String>, prefix: &str, r: Vec<String>| #[trigger]
            call_ensures(completion::keep_prefixed, (v, prefix), r) ==> forall|t: Seq<char>| #[trigger]
                laws::times(text::views(r@), t) == (if prefix@.is_prefix_of(t) {
                    laws::times(text::views(v@), t)
                } else {
                    0
                }),
        forall|c: &CompletionContext, r: &str| #[trigger]
            call_ensures(CompletionContext::prefix, (c,), r) ==> (match *c {
                CompletionContext::Command { prefix } => r@ == prefix@,
                CompletionContext::Arg { prefix, .. } => r@ == prefix@,
            }),
{
    assert forall|v: &Vec<String>, prefix: &str, r: Vec<String>| #[trigger]
        call_ensures(completion::keep_prefixed, (v, prefix), r) implies forall|t: Seq<char>| #[trigger]
        laws::times(text::views(r@), t) == (if prefix@.is_prefix_of(t) {
            laws::times(text::views(v@), t)
        } else {
            0
        }) by {
        assert forall|t: Seq<char>| #[trigger]
            laws::times(text::views(r@), t) == (if prefix@.is_prefix_of(t) {
                laws::times(text::views(v@), t)
            } else {
                0
            }) by {
            laws::filter_counts(
                text::views(v@),
                |x: Seq<char>| text::has_prefix(x, prefix@),
                t,
            );
            laws::prefix_either_way(t, prefix@);
        }
    }
}

/// Help has a row for every command, the registered ones and the console's own, with its name and
/// what it is for.
pub proof fn help_has_a_row_for_every_command<Ctx, C: Command<Ctx>>(
    v: ConsoleView<C>,
    i: int,
    b: Builtin,
)
    requires
        0 <= i < v.commands.len(),
    ensures
        v.help_lines::<Ctx>(None).contains(
            LineView {
                kind: LineKind::Output,
                text: "  "@ + text::padded(v.commands[i].1.spec_name(), 16) + " "@
                    + v.commands[i].1.spec_help(),
            },
        ),
        v.help_lines::<Ctx>(None).contains(
            LineView {
                kind: LineKind::Output,
                text: "  "@ + text::padded(b.spec_name(), 16) + " "@ + b.spec_help(),
            },
        ),
{
    broadcast use vstd::seq_lib::group_to_multiset_ensures;

    laws::help_lists_every_command::<Ctx, C>(v);
    let rows = v.help_entries::<Ctx>();
    let registered = v.commands.map_values(
        |p: (Seq<char>, C)| (p.1.spec_name(), p.1.spec_help()),
    );
    let own = builtin::all_builtins().map_values(|b: Builtin| (b.spec_name(), b.spec_help()));
    let all = registered + own;
    let lines = v.help_lines::<Ctx>(None);
    let x = (v.commands[i].1.spec_name(), v.commands[i].1.spec_help());
    let y = (b.spec_name(), b.spec_help());
    assert(all[i] == x);
    let at: int = match b {
        Builtin::Clear => 0,
        Builtin::Detach => 1,
        Builtin::Dock => 2,
        Builtin::Help => 3,
    };
    assert(own[at] == y);
    assert(all[registered.len() + at] == y);
    assert(all.contains(x) && all.contains(y));
    assert(rows.to_multiset().count(x) > 0 && rows.to_multiset().count(y) > 0);
    assert(rows.contains(x) && rows.contains(y));
    let j = choose|j: int| 0 <= j < rows.len() && rows[j] == x;
    let k = choose|k: int| 0 <= k < rows.len() && rows[k] == y;
    assert(lines[j + 1] == model::help_row(x));
    assert(lines[k + 1] == model::help_row(y));
}

/// Lines that keys call up come in the order in which the keys were bound.
pub proof fn bound_lines_come_in_order<Ctx, C: Command<Ctx>>(key: Key, line: Seq<char>)
    ensures
        forall|
            c: &Console<Ctx, C>,
            d: &Console<Ctx, C>,
            pressed: &Vec<Key>,
            a: Vec<String>,
            b: Vec<String>,
        |
            #![trigger call_ensures(Console::<Ctx, C>::bound_lines, (c, pressed), a), call_ensures(
                Console::<Ctx, C>::bound_lines,
                (d, pressed),
                b,
            )]
            call_ensures(Console::<Ctx, C>::bound_lines, (c, pressed), a) && call_ensures(
                Console::<Ctx, C>::bound_lines,
                (d, pressed),
                b,
            ) && bind_slots(d.binds@) == bind_slots(c.binds@).push((key, line)) ==> text::views(b@)
                == (if pressed@.contains(key) {
                text::views(a@).push(line)
            } else {
                text::views(a@)
            }),
{
    assert forall|binds: Seq<(Key, Seq<char>)>|
        #[trigger] binds.push((key, line)).drop_last() == binds by {
        assert(binds.push((key, line)).drop_last() =~= binds);
    }
}

/// A key that is pressed while the console is closed runs the line that is bound to it.
pub proof fn bound_keys_run_their_line<Ctx, C: Command<Ctx>>(line: Seq<char>)
    requires
        text::trimmed(line).len() > 0,
    ensures
        forall|c: &mut Console<Ctx, C>, keys: &FrameKeys, ctx: &mut Ctx, u: ()| #[trigger]
            call_ensures(Console::<Ctx, C>::ui, (c, keys, ctx), u) && (*c).wf() && !(*c)@.open
                && !keys.toggle && crate::console::fired(bind_slots((*c).binds@), keys.pressed@)
                == seq![line] ==> execution_meets::<Ctx, C>(
                (*c)@,
                text::trimmed(line),
                *ctx,
                (*final(c))@,
                *final(ctx),
            ),
{
    assert forall|c: &mut Console<Ctx, C>, keys: &FrameKeys, ctx: &mut Ctx, u: ()| #[trigger]
        call_ensures(Console::<Ctx, C>::ui, (c, keys, ctx), u) && (*c).wf() && !(*c)@.open
            && !keys.toggle && crate::console::fired(
            bind_slots((*c).binds@),
            keys.pressed@,
        ) == seq![line] implies execution_meets::<Ctx, C>(
        (*c)@,
        text::trimmed(line),
        *ctx,
        (*final(c))@,
        *final(ctx),
    ) by {
        let v = (*c)@;
        let w = (*final(c))@;
        let lines = seq![line];
        assert(model::executed_all::<Ctx, C>(v, lines, *ctx, w, *final(ctx)));
        assert(lines.drop_last() =~= Seq::empty());
        let (mid, mid_ctx) = choose|mid: ConsoleView<C>, mid_ctx: Ctx|
            model::executed_all::<Ctx, C>(v, lines.drop_last(), *ctx, mid, mid_ctx) && #[trigger]
            model::executed::<Ctx, C>(mid, lines.last(), mid_ctx, w, *final(ctx));
        assert(mid == v && mid_ctx == *ctx);
        execution_is_met::<Ctx, C>(v, line, *ctx, w, *final(ctx));
    }
}

} // verus!
