//! The console as a mathematical value, and what each operation does to it.

use vstd::prelude::*;

use crate::assoc;
use crate::console::builtin;
use crate::console::builtin::Builtin;
use crate::console::command::Command;
use crate::console::completion;
use crate::console::completion::ContextView;
use crate::console::line;
use crate::console::line::{CommandResult, LineView};
use crate::console::parse;
use crate::keys::Key;
use crate::ring;
use crate::sorting;
use crate::text;

verus! {

/// Scrollback line cap. Older lines drop when the buffer exceeds this.
pub const MAX_HISTORY_LINES: usize = 2000;

/// Input-history cap.
pub const MAX_INPUT_HISTORY: usize = 100;

/// An active tab-completion cycle.
#[verifier::ext_equal]
pub struct TabView {
    pub matches: Seq<Seq<char>>,
    pub index: nat,
    pub ctx: ContextView,
    /// The input as it was when the cycle began.
    pub typed: Seq<char>,
}

/// A console over plain values.
#[verifier::ext_equal]
#[verifier::reject_recursive_types(C)]
pub struct ConsoleView<C> {
    /// Registered commands by name, names ascending.
    pub commands: Seq<(Seq<char>, C)>,
    pub binds: Map<Key, Seq<char>>,
    pub toggle_key: Key,
    pub history: Seq<LineView>,
    pub input: Seq<char>,
    pub input_history: Seq<Seq<char>>,
    pub input_history_pos: Option<nat>,
    pub tab: Option<TabView>,
    pub open: bool,
    pub pending_focus: bool,
    pub status: Seq<char>,
    pub detached: bool,
    pub user_defocused: bool,
    pub pending_cursor_to_end: bool,
    pub mirrored: bool,
    pub unsent: Seq<LineView>,
}

/// No two neighbours are the same.
pub open spec fn no_repeats(s: Seq<Seq<char>>) -> bool {
    forall|i: int| 0 <= i < s.len() - 1 ==> #[trigger] s[i] != s[i + 1]
}

/// Can the line have been entered? It is not blank, and has no white space at its ends.
pub open spec fn is_entered(line: Seq<char>) -> bool {
    line.len() > 0 && !text::is_space(line[0]) && !text::is_space(line.last())
}

impl<C> ConsoleView<C> {
    /// A closed, docked console with nothing in it.
    pub open spec fn fresh() -> Self {
        ConsoleView {
            commands: Seq::empty(),
            binds: Map::empty(),
            toggle_key: Key::Backtick,
            history: Seq::empty(),
            input: Seq::empty(),
            input_history: Seq::empty(),
            input_history_pos: None,
            tab: None,
            open: false,
            pending_focus: false,
            status: Seq::empty(),
            detached: false,
            user_defocused: false,
            pending_cursor_to_end: false,
            mirrored: false,
            unsent: Seq::empty(),
        }
    }

    /// What every operation keeps: both logs within their caps, no line recalled twice in a
    /// row, none of them blank or with outer white space, the recall position and the tab
    /// cycle inside their lists, and command names ascending.
    pub open spec fn wf(self) -> bool {
        &&& assoc::ascending(self.commands)
        &&& self.history.len() <= MAX_HISTORY_LINES
        &&& self.input_history.len() <= MAX_INPUT_HISTORY
        &&& no_repeats(self.input_history)
        &&& forall|i: int|
            0 <= i < self.input_history.len() ==> is_entered(#[trigger] self.input_history[i])
        &&& match self.input_history_pos {
            Some(p) => p < self.input_history.len(),
            None => true,
        }
        &&& match self.tab {
            Some(t) => t.matches.len() >= 2 && t.index < t.matches.len(),
            None => true,
        }
    }

    /// The commands by name.
    pub open spec fn registry(self) -> Map<Seq<char>, C> {
        assoc::as_map(self.commands)
    }

    // -----------------------------------------------------------------
    // Scrollback
    // -----------------------------------------------------------------

    /// The console with lines appended to the scrollback. A mirrored console also keeps
    /// them for the mirror.
    pub open spec fn written(self, lines: Seq<LineView>) -> Self {
        ConsoleView {
            history: ring::capped(self.history + lines, MAX_HISTORY_LINES as nat),
            unsent: if self.mirrored {
                self.unsent + lines
            } else {
                self.unsent
            },
            ..self
        }
    }

    // -----------------------------------------------------------------
    // Opening and docking
    // -----------------------------------------------------------------

    pub open spec fn opened(self) -> Self {
        if self.open {
            self
        } else {
            ConsoleView { open: true, pending_focus: true, user_defocused: false, ..self }
        }
    }

    pub open spec fn closed(self) -> Self {
        ConsoleView { open: false, ..self }
    }

    pub open spec fn toggled(self) -> Self {
        if self.open {
            self.closed()
        } else {
            self.opened()
        }
    }

    // -----------------------------------------------------------------
    // Input history
    // -----------------------------------------------------------------

    /// Up: one line back, stopping at the oldest.
    pub open spec fn recalled_prev(self) -> Self {
        if self.input_history.len() == 0 {
            self
        } else {
            let pos = match self.input_history_pos {
                None => (self.input_history.len() - 1) as nat,
                Some(p) => if p == 0 {
                    0
                } else {
                    (p - 1) as nat
                },
            };
            ConsoleView {
                input: self.input_history[pos as int],
                input_history_pos: Some(pos),
                tab: None,
                pending_cursor_to_end: true,
                ..self
            }
        }
    }

    /// Down: one line forward, and past the newest back to a blank input.
    pub open spec fn recalled_next(self) -> Self {
        match self.input_history_pos {
            None => self,
            Some(p) => if p + 1 >= self.input_history.len() {
                ConsoleView {
                    input: Seq::empty(),
                    input_history_pos: None,
                    tab: None,
                    pending_cursor_to_end: true,
                    ..self
                }
            } else {
                ConsoleView {
                    input: self.input_history[(p + 1) as int],
                    input_history_pos: Some(p + 1),
                    tab: None,
                    pending_cursor_to_end: true,
                    ..self
                }
            },
        }
    }

    /// The input history after `line` was entered: a repeat of the newest entry is not
    /// stored again, and the oldest entries beyond the cap are dropped.
    pub open spec fn remembered(self, line: Seq<char>) -> Seq<Seq<char>> {
        if self.input_history.len() > 0 && self.input_history.last() == line {
            self.input_history
        } else {
            ring::capped(self.input_history.push(line), MAX_INPUT_HISTORY as nat)
        }
    }

    /// The console once `line` was echoed and remembered.
    pub open spec fn echoed(self, line: Seq<char>) -> Self {
        ConsoleView {
            input_history: self.remembered(line),
            input_history_pos: None,
            tab: None,
            ..self.written(seq![LineView::input("> "@ + line)])
        }
    }

    // -----------------------------------------------------------------
    // Completion
    // -----------------------------------------------------------------

    /// The registered and built-in command names, sorted.
    pub open spec fn all_names(self) -> Seq<Seq<char>> {
        sorting::in_order(
            self.commands.map_values(|p: (Seq<char>, C)| p.0) + builtin::all_builtins().map_values(
                |b: Builtin| b.spec_name(),
            ),
            sorting::own_key(),
        )
    }

    /// What completes `ctx`.
    pub open spec fn matches<Ctx>(self, ctx: ContextView) -> Seq<Seq<char>> where
        C: Command<Ctx>,
     {
        match ctx {
            ContextView::Command { prefix } => completion::with_prefix(self.all_names(), prefix),
            ContextView::Arg { cmd_name, arg_index, prior, prefix } => if !self.registry().dom().contains(
            cmd_name) {
                Seq::empty()
            } else if prefix.contains('=') {
                completion::value_matches(
                    self.registry()[cmd_name].spec_arg_value_choices_ctx(
                        arg_index,
                        prefix.take(text::first_at(prefix, '=')),
                        prior,
                    ),
                    prefix,
                )
            } else {
                completion::choice_matches(
                    self.registry()[cmd_name].spec_arg_choices_ctx(arg_index, prior),
                    prefix,
                    self.input,
                )
            },
        }
    }

    /// What the input completes; an empty command prefix for a line without tokens.
    pub open spec fn tab_context(self) -> ContextView {
        match completion::context_of(self.input) {
            Some(c) => c,
            None => ContextView::Command { prefix: Seq::empty() },
        }
    }

    /// Tab: step an active cycle, or start one with the first match. Each match takes the
    /// place of what was typed when the cycle began. Nothing happens without a match, and a
    /// single match starts no cycle.
    pub open spec fn tabbed<Ctx>(self) -> Self where C: Command<Ctx> {
        match self.tab {
            Some(t) => {
                let index = (t.index + 1) % t.matches.len();
                ConsoleView {
                    input: completion::applied(t.typed, t.ctx, t.matches[index as int]),
                    tab: Some(TabView { index, ..t }),
                    pending_cursor_to_end: true,
                    ..self
                }
            },
            None => {
                let ctx = self.tab_context();
                let matches = self.matches::<Ctx>(ctx);
                if matches.len() == 0 {
                    self
                } else {
                    ConsoleView {
                        input: completion::applied(self.input, ctx, matches[0]),
                        tab: if matches.len() > 1 {
                            Some(TabView { matches, index: 0, ctx, typed: self.input })
                        } else {
                            None
                        },
                        pending_cursor_to_end: true,
                        ..self
                    }
                }
            },
        }
    }

    /// The part of the first match behind what is typed; nothing for a line without tokens
    /// or where nothing would be added.
    pub open spec fn preview<Ctx>(self) -> Option<Seq<char>> where C: Command<Ctx> {
        match completion::context_of(self.input) {
            None => None,
            Some(ctx) => {
                let matches = self.matches::<Ctx>(ctx);
                if matches.len() > 0 && matches[0].len() > ctx.spec_prefix().len() {
                    Some(matches[0].skip(ctx.spec_prefix().len() as int))
                } else {
                    None
                }
            },
        }
    }

    // -----------------------------------------------------------------
    // Commands
    // -----------------------------------------------------------------

    /// The rows of the help listing: every command's name and description, by name.
    pub open spec fn help_entries<Ctx>(self) -> Seq<(Seq<char>, Seq<char>)> where C: Command<Ctx> {
        sorting::in_order(
            self.commands.map_values(|p: (Seq<char>, C)| (p.1.spec_name(), p.1.spec_help()))
                + builtin::all_builtins().map_values(
                |b: Builtin| (b.spec_name(), b.spec_help()),
            ),
            sorting::first_key(),
        )
    }

    /// What `help`, or `help <target>`, prints.
    pub open spec fn help_lines<Ctx>(self, target: Option<Seq<char>>) -> Seq<LineView> where
        C: Command<Ctx>,
     {
        match target {
            None => seq![LineView::output("commands:"@)] + self.help_entries::<Ctx>().map_values(
                |p: (Seq<char>, Seq<char>)| help_row(p),
            ),
            Some(name) => match builtin::builtin_named(name) {
                Some(b) => seq![LineView::output(b.spec_name() + ": "@ + b.spec_help())],
                None => if self.registry().dom().contains(name) {
                    let c = self.registry()[name];
                    seq![LineView::output(c.spec_name() + ": "@ + c.spec_help())]
                } else {
                    seq![LineView::error("no command '"@ + name + "'"@)]
                },
            },
        }
    }

    /// What a built-in command does.
    pub open spec fn after_builtin<Ctx>(self, b: Builtin, target: Option<Seq<char>>) -> Self where
        C: Command<Ctx>,
     {
        match b {
            Builtin::Help => self.written(self.help_lines::<Ctx>(target)),
            Builtin::Clear => ConsoleView { history: Seq::empty(), ..self },
            Builtin::Detach => ConsoleView {
                detached: true,
                ..self.written(seq![LineView::system("console detached"@)])
            },
            Builtin::Dock => ConsoleView {
                detached: false,
                ..self.written(seq![LineView::system("console docked"@)])
            },
        }
    }

    /// The console after a registered command wrote `lines` and returned `r`.
    pub open spec fn after_run(self, lines: Seq<LineView>, r: CommandResult) -> Self {
        self.written(lines + error_lines(r))
    }
}

/// Do the two lists hold the same commands but for the one named `name`?
pub open spec fn same_but<C>(a: Seq<(Seq<char>, C)>, b: Seq<(Seq<char>, C)>, name: Seq<char>) -> bool {
    &&& a.len() == b.len()
    &&& forall|i: int| 0 <= i < a.len() ==> (#[trigger] a[i]).0 == b[i].0
    &&& forall|i: int| 0 <= i < a.len() && (#[trigger] a[i]).0 != name ==> a[i] == b[i]
}

/// Does executing `line` in `v` run a registered command: is it not blank, and does its first
/// token name one and no built-in?
pub open spec fn runs_command<C>(v: ConsoleView<C>, line: Seq<char>) -> bool {
    let typed = text::trimmed(line);
    typed.len() > 0 && builtin::builtin_named(parse::tokens(typed)[0]) is None
        && v.registry().dom().contains(parse::tokens(typed)[0])
}

/// May executing `line` in `v` with `before` lead to `w` and `after`?
///
/// The line is trimmed; a blank one does nothing. Else it is echoed and remembered, and its
/// first token is looked up: a built-in command acts on the console, an unknown name leaves
/// an error line, and a registered command runs on the other tokens, with what it wrote and
/// its error appended.
pub open spec fn executed<Ctx, C: Command<Ctx>>(
    v: ConsoleView<C>,
    line: Seq<char>,
    before: Ctx,
    w: ConsoleView<C>,
    after: Ctx,
) -> bool {
    let typed = text::trimmed(line);
    if typed.len() == 0 {
        w == v && after == before
    } else {
        let name = parse::tokens(typed)[0];
        let args = parse::tokens(typed).skip(1);
        let e = v.echoed(typed);
        match builtin::builtin_named(name) {
            Some(b) => {
                &&& after == before
                &&& w == e.after_builtin::<Ctx>(
                    b,
                    if args.len() > 0 {
                        Some(args[0])
                    } else {
                        None
                    },
                )
            },
            None => if !v.registry().dom().contains(name) {
                after == before && w == e.written(seq![no_command(name)])
            } else {
                &&& same_but(v.commands, w.commands, name)
                &&& exists|lines: Seq<LineView>, r: CommandResult| #[trigger]
                    v.registry()[name].effect(args, before, after, Seq::empty(), lines, r) && w == (
                    ConsoleView { commands: w.commands, ..e.after_run(lines, r) })
            },
        }
    }
}

/// May executing `lines` one after the other in `v` with `before` lead to `w` and `after`?
pub open spec fn executed_all<Ctx, C: Command<Ctx>>(
    v: ConsoleView<C>,
    lines: Seq<Seq<char>>,
    before: Ctx,
    w: ConsoleView<C>,
    after: Ctx,
) -> bool
    decreases lines.len(),
{
    if lines.len() == 0 {
        w == v && after == before
    } else {
        exists|mid: ConsoleView<C>, mid_ctx: Ctx|
            executed_all::<Ctx, C>(v, lines.drop_last(), before, mid, mid_ctx) && #[trigger]
            executed::<Ctx, C>(mid, lines.last(), mid_ctx, w, after)
    }
}

/// Executing all lines but the last, and then the last, executes them all.
pub proof fn executed_one_more<Ctx, C: Command<Ctx>>(
    v: ConsoleView<C>,
    lines: Seq<Seq<char>>,
    before: Ctx,
    mid: ConsoleView<C>,
    mid_ctx: Ctx,
    w: ConsoleView<C>,
    after: Ctx,
)
    requires
        lines.len() > 0,
        executed_all::<Ctx, C>(v, lines.drop_last(), before, mid, mid_ctx),
        executed::<Ctx, C>(mid, lines.last(), mid_ctx, w, after),
    ensures
        executed_all::<Ctx, C>(v, lines, before, w, after),
{
}

/// One row of the help listing.
pub open spec fn help_row(p: (Seq<char>, Seq<char>)) -> LineView {
    LineView::output("  "@ + text::padded(p.0, 16) + " "@ + p.1)
}

/// The line that a failed command leaves; none for one that succeeded.
pub open spec fn error_lines(r: CommandResult) -> Seq<LineView> {
    match line::failure(r) {
        None => Seq::empty(),
        Some(m) => seq![LineView::error("error: "@ + m)],
    }
}

/// Shown for a name that is neither built in nor registered.
pub open spec fn no_command(name: Seq<char>) -> LineView {
    LineView::error("no command '"@ + name + "'. try: help"@)
}

} // verus!
