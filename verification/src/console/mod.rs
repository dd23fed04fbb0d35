//! Quake-style developer console: a command registry, scrollback, an input line with
//! history and tab completion, and hotkey binds.
//!
//! [`Console`] is generic over a `Ctx` type, the state its commands operate on, and over
//! the type of its commands. [`model::ConsoleView`] says what a console is and what each
//! operation does to it.

use std::collections::VecDeque;
use std::marker::PhantomData;

use vstd::prelude::*;

use crate::assoc;
use crate::keys::Key;
use crate::ring;
use crate::ring::push_capped;
use crate::sorting;
use crate::sorting::{sort_pairs, sort_texts};
use crate::text;
use crate::text::{chars_of, pad, position_of, string_of, text_eq, text_lt, trim};

pub mod builtin;
pub mod choices;
pub mod command;
pub mod completion;
pub mod laws;
pub mod line;
pub mod model;
pub mod operation;
pub mod parse;
pub mod subcommands;

use crate::console::builtin::Builtin;
use crate::console::command::Command;
use crate::console::completion::{
    apply_completion, complete_choice, complete_value, find_context, keep_prefixed,
    CompletionContext,
};
use crate::console::line::{CommandResult, ConsoleWriter, HistoryLine, LineView};
use crate::console::model::{ConsoleView, TabView, MAX_HISTORY_LINES, MAX_INPUT_HISTORY};
use crate::console::parse::parse_line;

verus! {

/// An active tab-completion cycle.
pub struct TabState {
    pub matches: Vec<String>,
    pub index: usize,
    pub ctx: CompletionContext,
    /// The input as it was when the cycle began.
    pub typed: String,
}

impl View for TabState {
    type V = TabView;

    open spec fn view(&self) -> TabView {
        TabView {
            matches: text::views(self.matches@),
            index: self.index as nat,
            ctx: self.ctx@,
            typed: self.typed@,
        }
    }
}

/// The dev console. Owns the command registry, scrollback, input line, hotkey binds, and
/// open/close state.
#[verifier::reject_recursive_types(Ctx)]
#[verifier::reject_recursive_types(C)]
pub struct Console<Ctx, C = Box<dyn Command<Ctx>>> {
    /// Commands in ascending name order.
    pub commands: Vec<(String, C)>,
    pub binds: Vec<(Key, String)>,
    pub toggle_key: Key,
    pub history: VecDeque<HistoryLine>,
    pub input: String,
    pub input_history: VecDeque<String>,
    /// `Some(i)` while cycling history with Up/Down; `None` after `Enter` or after typing
    /// into a blank input.
    pub input_history_pos: Option<usize>,
    /// Active tab-completion cycle, if any. Cleared on any input edit that is not a
    /// tab-complete itself.
    pub tab: Option<TabState>,
    pub open: bool,
    /// Set when the console opens, so the panel can request focus once.
    pub pending_focus: bool,
    /// Right-aligned text in the title row.
    pub status: String,
    /// `false` for the half-screen drop-down, `true` for a draggable window.
    pub detached: bool,
    /// Set in docked mode when the user clicks outside the panel; suppresses the input
    /// row's per-frame focus request.
    pub user_defocused: bool,
    /// One-frame flag set whenever code outside the text field changes the input. The panel
    /// moves the cursor to the end and clears it.
    pub pending_cursor_to_end: bool,
    /// Do lines of the scrollback go to the host's own console too?
    pub mirrored: bool,
    /// Lines that still have to go there.
    pub unsent: Vec<HistoryLine>,
    pub context: PhantomData<Ctx>,
}

/// The commands with their names' views.
pub open spec fn slots<C>(s: Seq<(String, C)>) -> Seq<(Seq<char>, C)> {
    s.map_values(|p: (String, C)| (p.0@, p.1))
}

/// The binds with their lines' views.
pub open spec fn bind_slots(s: Seq<(Key, String)>) -> Seq<(Key, Seq<char>)> {
    s.map_values(|p: (Key, String)| (p.0, p.1@))
}

impl<Ctx, C> View for Console<Ctx, C> {
    type V = ConsoleView<C>;

    open spec fn view(&self) -> ConsoleView<C> {
        ConsoleView {
            commands: slots(self.commands@),
            binds: assoc::as_map(bind_slots(self.binds@)),
            toggle_key: self.toggle_key,
            history: line::line_views(self.history@),
            input: self.input@,
            input_history: text::views(self.input_history@),
            input_history_pos: match self.input_history_pos {
                Some(p) => Some(p as nat),
                None => None,
            },
            tab: match self.tab {
                Some(t) => Some(t@),
                None => None,
            },
            open: self.open,
            pending_focus: self.pending_focus,
            status: self.status@,
            detached: self.detached,
            user_defocused: self.user_defocused,
            pending_cursor_to_end: self.pending_cursor_to_end,
            mirrored: self.mirrored,
            unsent: line::line_views(self.unsent@),
        }
    }
}

/// The keys of an open panel that were pressed this frame.
#[derive(Clone, Copy, Debug, PartialEq, Eq, Structural)]
pub struct PanelKeys {
    pub escape: bool,
    pub up: bool,
    pub down: bool,
    pub tab: bool,
    /// Command+L: clear the scrollback.
    pub clear_history: bool,
    /// Command+C: clear the input line.
    pub clear_input: bool,
}

/// What Up and Down do, in that order.
#[verifier::opaque]
pub open spec fn after_recall<C>(v: ConsoleView<C>, up: bool, down: bool) -> ConsoleView<C> {
    let w = if up {
        v.recalled_prev()
    } else {
        v
    };
    if down {
        w.recalled_next()
    } else {
        w
    }
}

/// What clearing the scrollback and the input line does.
#[verifier::opaque]
pub open spec fn after_clear<C>(v: ConsoleView<C>, history: bool, input: bool) -> ConsoleView<C> {
    let w = if history {
        ConsoleView { history: Seq::empty(), ..v }
    } else {
        v
    };
    if input {
        ConsoleView { input: Seq::empty(), input_history_pos: None, tab: None, ..w }
    } else {
        w
    }
}

/// What the keys of an open panel do, in the order in which they are looked at.
pub open spec fn after_panel_keys<Ctx, C: Command<Ctx>>(
    v: ConsoleView<C>,
    k: PanelKeys,
) -> ConsoleView<C> {
    let v1 = if k.escape {
        v.closed()
    } else {
        v
    };
    let v2 = after_recall(v1, k.up, k.down);
    let v3 = if k.tab {
        v2.tabbed::<Ctx>()
    } else {
        v2
    };
    after_clear(v3, k.clear_history, k.clear_input)
}

proof fn views_push(s: Seq<HistoryLine>, x: HistoryLine)
    ensures
        line::line_views(s.push(x)) == line::line_views(s).push(x@),
{
    assert(line::line_views(s.push(x)) =~= line::line_views(s).push(x@));
}

proof fn views_capped(s: Seq<HistoryLine>, cap: nat)
    ensures
        line::line_views(ring::capped(s, cap)) == ring::capped(line::line_views(s), cap),
{
    assert(line::line_views(ring::capped(s, cap)) =~= ring::capped(line::line_views(s), cap));
}

proof fn texts_capped(s: Seq<String>, cap: nat)
    ensures
        text::views(ring::capped(s, cap)) == ring::capped(text::views(s), cap),
{
    assert(text::views(ring::capped(s, cap)) =~= ring::capped(text::views(s), cap));
}

impl<Ctx, C: Command<Ctx>> Console<Ctx, C> {
    /// The invariant of a console: that of its view, distinct bind keys, and commands that
    /// are ready to run.
    pub open spec fn wf(&self) -> bool {
        &&& self@.wf()
        &&& assoc::distinct_keys(bind_slots(self.binds@))
        &&& forall|i: int| 0 <= i < self.commands@.len() ==> (#[trigger] self.commands@[i]).1.ready()
    }

    /// Empty console with no commands, no binds, and the `` ` `` toggle key.
    pub fn new() -> (r: Self)
        ensures
            r.wf(),
            r@ == ConsoleView::<C>::fresh(),
    {
        let r: Console<Ctx, C> = Console {
            commands: Vec::new(),
            binds: Vec::new(),
            toggle_key: Key::Backtick,
            history: VecDeque::new(),
            input: String::new(),
            input_history: VecDeque::new(),
            input_history_pos: None,
            tab: None,
            open: false,
            pending_focus: false,
            status: String::new(),
            detached: false,
            user_defocused: false,
            pending_cursor_to_end: false,
            mirrored: false,
            unsent: Vec::new(),
            context: PhantomData,
        };
        assert(r@.commands =~= Seq::empty());
        assert(r@.binds =~= Map::empty());
        assert(r@.history =~= Seq::empty());
        assert(r@.input_history =~= Seq::empty());
        assert(r@.unsent =~= Seq::empty());
        r
    }

    /// Override the toggle key.
    pub fn with_toggle_key(self, key: Key) -> (r: Self)
        ensures
            r@ == (ConsoleView { toggle_key: key, ..self@ }),
            self.wf() ==> r.wf(),
    {
        let mut r = self;
        r.toggle_key = key;
        r
    }

    /// The first place whose name does not come before `name`, and whether it is `name`.
    fn find(&self, name: &str) -> (r: (usize, bool))
        requires
            self@.wf(),
        ensures
            r.0 <= self.commands@.len(),
            forall|j: int| 0 <= j < r.0 ==> text::lex_lt((#[trigger] self@.commands[j]).0, name@),
            r.0 < self.commands@.len() && !r.1 ==> text::lex_lt(name@, self@.commands[r.0 as int].0),
            r.1 == self@.registry().dom().contains(name@),
            r.1 ==> r.0 < self.commands@.len() && self.commands@[r.0 as int].0@ == name@
                && self@.registry()[name@] == self.commands@[r.0 as int].1,
    {
        let ghost all = self@.commands;
        let mut i: usize = 0;
        while i < self.commands.len() && text_lt(self.commands[i].0.as_str(), name)
            invariant
                i <= self.commands.len(),
                all == slots(self.commands@),
                forall|j: int| 0 <= j < i ==> text::lex_lt((#[trigger] all[j]).0, name@),
            decreases self.commands.len() - i,
        {
            assert(all[i as int].0 == self.commands@[i as int].0@);
            i += 1;
        }
        proof {
            assoc::ascending_distinct(all);
            if i < all.len() {
                assert(all[i as int] == (self.commands@[i as int].0@, self.commands@[i as int].1));
                text::lex_total(name@, all[i as int].0);
            }
        }
        if i < self.commands.len() && text_eq(self.commands[i].0.as_str(), name) {
            proof {
                assoc::as_map_at(all, i as int);
            }
            (i, true)
        } else {
            proof {
                if i < all.len() {
                    assoc::ascending_insert(all, i as int, name@, all[i as int].1);
                } else {
                    assert(!assoc::has_key(all, name@)) by {
                        text::lex_irreflexive(name@);
                    }
                }
            }
            (i, false)
        }
    }

    /// Register a command. Replaces any existing command of the same name without warning.
    pub fn register(&mut self, command: C)
        requires
            old(self).wf(),
            command.ready(),
        ensures
            final(self).wf(),
            final(self)@ == (ConsoleView { commands: final(self)@.commands, ..old(self)@ }),
            final(self)@.registry() == old(self)@.registry().insert(command.spec_name(), command),
    {
        let name = command.name().to_owned();
        let (i, found) = self.find(name.as_str());
        let ghost all = self@.commands;
        let ghost before = self.commands@;
        proof {
            assoc::ascending_distinct(all);
        }
        if found {
            self.commands.set(i, (name, command));
            proof {
                let now = self@.commands;
                assert(now =~= all.update(i as int, (all[i as int].0, command)));
                assoc::as_map_update(all, i as int, command);
                assert forall|a: int, b: int| 0 <= a < b < now.len() implies text::lex_lt(
                    #[trigger] now[a].0,
                    #[trigger] now[b].0,
                ) by {
                    assert(now[a].0 == all[a].0);
                    assert(now[b].0 == all[b].0);
                }
                assert forall|j: int| 0 <= j < self.commands@.len() implies (
                #[trigger] self.commands@[j]).1.ready() by {
                    if j != i {
                        assert(self.commands@[j] == before[j]);
                    }
                }
            }
        } else {
            self.commands.insert(i, (name, command));
            proof {
                let now = self@.commands;
                assert(now =~= all.insert(i as int, (name@, command)));
                assoc::ascending_insert(all, i as int, name@, command);
                assoc::as_map_insert(all, i as int, name@, command);
                assert forall|j: int| 0 <= j < self.commands@.len() implies (
                #[trigger] self.commands@[j]).1.ready() by {
                    if j < i {
                        assert(self.commands@[j] == before[j]);
                    } else if j > i {
                        assert(self.commands@[j] == before[j - 1]);
                    }
                }
            }
        }
    }

    /// True if a command with this name is registered. `help` and `clear` are built in and
    /// always return true.
    pub fn has_command(&self, name: &str) -> (r: bool)
        requires
            self.wf(),
        ensures
            r == (name@ == "help"@ || name@ == "clear"@ || self@.registry().dom().contains(name@)),
    {
        text_eq(name, "help") || text_eq(name, "clear") || self.find(name).1
    }

    /// Where a key is bound.
    fn find_bind(&self, key: Key) -> (r: Option<usize>)
        requires
            self.wf(),
        ensures
            match r {
                Some(i) => i < self.binds@.len() && self.binds@[i as int].0 == key
                    && self@.binds.dom().contains(key) && self@.binds[key]
                    == self.binds@[i as int].1@,
                None => !self@.binds.dom().contains(key) && !assoc::has_key(
                    bind_slots(self.binds@),
                    key,
                ),
            },
    {
        let ghost all = bind_slots(self.binds@);
        let mut i: usize = 0;
        while i < self.binds.len()
            invariant
                i <= self.binds.len(),
                all == bind_slots(self.binds@),
                assoc::distinct_keys(all),
                forall|j: int| 0 <= j < i ==> (#[trigger] all[j]).0 != key,
            decreases self.binds.len() - i,
        {
            assert(all[i as int] == (self.binds@[i as int].0, self.binds@[i as int].1@));
            if self.binds[i].0 == key {
                proof {
                    assoc::as_map_at(all, i as int);
                }
                return Some(i);
            }
            i += 1;
        }
        None
    }

    /// Bind `key` (no modifiers) to execute `command_line` when the console is closed.
    /// Re-binding overwrites the previous binding.
    pub fn bind(&mut self, key: Key, command_line: &str)
        requires
            old(self).wf(),
        ensures
            final(self).wf(),
            final(self)@ == (ConsoleView {
                binds: old(self)@.binds.insert(key, command_line@),
                ..old(self)@
            }),
    {
        let ghost all = bind_slots(self.binds@);
        match self.find_bind(key) {
            Some(i) => {
                self.binds.set(i, (key, command_line.to_owned()));
                proof {
                    assert(bind_slots(self.binds@) =~= all.update(
                        i as int,
                        (all[i as int].0, command_line@),
                    ));
                    assoc::as_map_update(all, i as int, command_line@);
                }
            },
            None => {
                let n: usize = self.binds.len();
                self.binds.push((key, command_line.to_owned()));
                proof {
                    assert(bind_slots(self.binds@) =~= all.insert(n as int, (key, command_line@)));
                    assoc::as_map_insert(all, n as int, key, command_line@);
                }
            },
        }
    }

    /// Remove a bind. No-op if the key wasn't bound.
    pub fn unbind(&mut self, key: Key)
        requires
            old(self).wf(),
        ensures
            final(self).wf(),
            final(self)@ == (ConsoleView { binds: old(self)@.binds.remove(key), ..old(self)@ }),
    {
        let ghost all = bind_slots(self.binds@);
        match self.find_bind(key) {
            Some(i) => {
                let _ = self.binds.remove(i);
                proof {
                    assert(bind_slots(self.binds@) =~= all.remove(i as int));
                    assoc::as_map_remove(all, i as int);
                }
            },
            None => {
                assert(self@.binds.remove(key) =~= self@.binds);
            },
        }
    }

    /// Open the console. Idempotent.
    pub fn open(&mut self)
        ensures
            final(self)@ == old(self)@.opened(),
            final(self).binds == old(self).binds,
            old(self).wf() ==> final(self).wf(),
    {
        if !self.open {
            self.open = true;
            self.pending_focus = true;
            self.user_defocused = false;
        }
    }

    /// Close the console. Idempotent.
    pub fn close(&mut self)
        ensures
            final(self)@ == old(self)@.closed(),
            final(self).binds == old(self).binds,
            old(self).wf() ==> final(self).wf(),
    {
        self.open = false;
    }

    /// Toggle open/closed.
    pub fn toggle(&mut self)
        ensures
            final(self)@ == old(self)@.toggled(),
            final(self).binds == old(self).binds,
            old(self).wf() ==> final(self).wf(),
    {
        if self.open {
            self.close()
        } else {
            self.open()
        }
    }

    /// Currently open?
    pub fn is_open(&self) -> (r: bool)
        ensures
            r == self@.open,
    {
        self.open
    }

    /// Switch to detached mode. Idempotent.
    pub fn detach(&mut self)
        ensures
            final(self)@ == (ConsoleView { detached: true, ..old(self)@ }),
            old(self).wf() ==> final(self).wf(),
    {
        self.detached = true;
    }

    /// Switch to docked mode. Idempotent.
    pub fn dock(&mut self)
        ensures
            final(self)@ == (ConsoleView { detached: false, ..old(self)@ }),
            old(self).wf() ==> final(self).wf(),
    {
        self.detached = false;
    }

    /// Detached or docked?
    pub fn is_detached(&self) -> (r: bool)
        ensures
            r == self@.detached,
    {
        self.detached
    }

    /// Append a line to the scrollback.
    pub fn write(&mut self, line: HistoryLine)
        ensures
            final(self)@ == old(self)@.written(seq![line@]),
            old(self).wf() ==> final(self).wf(),
    {
        self.push_history(line);
    }

    /// Set the title-row status text.
    pub fn set_status(&mut self, text: &str)
        ensures
            final(self)@ == (ConsoleView { status: text@, ..old(self)@ }),
            old(self).wf() ==> final(self).wf(),
    {
        self.status = text.to_owned();
    }

    /// Append a line and drop the oldest beyond the cap.
    pub fn push_history(&mut self, line: HistoryLine)
        ensures
            final(self)@ == old(self)@.written(seq![line@]),
            old(self).wf() ==> final(self).wf(),
    {
        let ghost before = self.history@;
        if self.mirrored {
            let ghost sent = self.unsent@;
            let copy = HistoryLine { kind: line.kind, text: line.text.clone() };
            self.unsent.push(copy);
            proof {
                views_push(sent, copy);
                assert(line::line_views(sent).push(copy@) =~= line::line_views(sent) + seq![
                    line@,
                ]);
            }
        }
        push_capped(&mut self.history, line, MAX_HISTORY_LINES);
        proof {
            views_push(before, line);
            views_capped(before.push(line), MAX_HISTORY_LINES as nat);
            assert(line::line_views(before).push(line@) =~= line::line_views(before) + seq![line@]);
            assert(self@ =~= old(self)@.written(seq![line@]));
        }
    }

    /// Send the scrollback's lines from now on to the host's own console too, or stop.
    pub fn set_mirrored(&mut self, on: bool)
        ensures
            final(self)@ == (ConsoleView { mirrored: on, ..old(self)@ }),
            old(self).wf() ==> final(self).wf(),
    {
        self.mirrored = on;
    }

    /// The lines written while mirrored that have not been taken yet, in order.
    pub fn take_unsent(&mut self) -> (r: Vec<HistoryLine>)
        ensures
            line::line_views(r@) == old(self)@.unsent,
            final(self)@ == (ConsoleView { unsent: Seq::empty(), ..old(self)@ }),
            old(self).wf() ==> final(self).wf(),
    {
        let mut r: Vec<HistoryLine> = Vec::new();
        std::mem::swap(&mut r, &mut self.unsent);
        assert(line::line_views(self.unsent@) =~= Seq::<LineView>::empty());
        r
    }

    /// Recall the previous input line.
    pub fn history_prev(&mut self)
        requires
            old(self).wf(),
        ensures
            final(self).wf(),
            final(self)@ == old(self)@.recalled_prev(),
    {
        if self.input_history.len() == 0 {
            return;
        }
        let pos: usize = match self.input_history_pos {
            None => self.input_history.len() - 1,
            Some(p) => if p == 0 {
                0
            } else {
                p - 1
            },
        };
        self.input = self.input_history[pos].clone();
        self.input_history_pos = Some(pos);
        self.tab = None;
        self.pending_cursor_to_end = true;
        assert(self@ =~= old(self)@.recalled_prev());
    }

    /// Recall the next input line, or return to a blank one.
    pub fn history_next(&mut self)
        requires
            old(self).wf(),
        ensures
            final(self).wf(),
            final(self)@ == old(self)@.recalled_next(),
    {
        let pos = match self.input_history_pos {
            Some(p) => p,
            None => {
                return;
            },
        };
        if pos + 1 >= self.input_history.len() {
            self.input = String::new();
            self.input_history_pos = None;
        } else {
            self.input_history_pos = Some(pos + 1);
            self.input = self.input_history[pos + 1].clone();
        }
        self.tab = None;
        self.pending_cursor_to_end = true;
        assert(self@ =~= old(self)@.recalled_next());
    }
}

/// The texts of a list, borrowed.
fn borrowed<'a>(v: &'a Vec<String>) -> (r: Vec<&'a str>)
    ensures
        text::str_views(r@) == text::views(v@),
{
    let mut out: Vec<&'a str> = Vec::new();
    let mut i: usize = 0;
    while i < v.len()
        invariant
            i <= v.len(),
            text::str_views(out@) == text::views(v@.take(i as int)),
        decreases v.len() - i,
    {
        let ghost before = out@;
        out.push(v[i].as_str());
        assert(v@.take(i + 1) =~= v@.take(i as int).push(v@[i as int]));
        assert(text::str_views(out@) =~= text::str_views(before).push(v@[i as int]@));
        assert(text::views(v@.take(i + 1)) =~= text::views(v@.take(i as int)).push(v@[i as int]@));
        i += 1;
    }
    assert(v@.take(v@.len() as int) =~= v@);
    out
}

impl<Ctx, C: Command<Ctx>> Console<Ctx, C> {
    // -----------------------------------------------------------------
    // Completion
    // -----------------------------------------------------------------

    /// Every command name, sorted.
    pub fn all_command_names(&self) -> (r: Vec<String>)
        ensures
            text::views(r@) == self@.all_names(),
    {
        let mut names: Vec<String> = Vec::new();
        let ghost keys = self@.commands.map_values(|p: (Seq<char>, C)| p.0);
        let mut i: usize = 0;
        while i < self.commands.len()
            invariant
                i <= self.commands.len(),
                keys == slots(self.commands@).map_values(|p: (Seq<char>, C)| p.0),
                text::views(names@) == keys.take(i as int),
            decreases self.commands.len() - i,
        {
            let ghost before = names@;
            names.push(self.commands[i].0.clone());
            assert(text::views(names@) =~= text::views(before).push(self.commands@[i as int].0@));
            assert(keys.take(i + 1) =~= keys.take(i as int).push(keys[i as int]));
            i += 1;
        }
        assert(keys.take(keys.len() as int) =~= keys);
        let builtins = Builtin::all();
        let ghost own = builtin::all_builtins().map_values(|b: Builtin| b.spec_name());
        let mut j: usize = 0;
        assert(keys + own.take(0) =~= keys);
        while j < builtins.len()
            invariant
                j <= builtins.len(),
                builtins@ == builtin::all_builtins(),
                own == builtin::all_builtins().map_values(|b: Builtin| b.spec_name()),
                text::views(names@) == keys + own.take(j as int),
            decreases builtins.len() - j,
        {
            let ghost before = names@;
            names.push(builtins[j].name().to_owned());
            assert(text::views(names@) =~= text::views(before).push(own[j as int]));
            assert(keys + own.take(j + 1) =~= (keys + own.take(j as int)).push(own[j as int]));
            j += 1;
        }
        assert(own.take(own.len() as int) =~= own);
        sort_texts(names)
    }

    /// What the input line is completing.
    pub fn completion_context(&self) -> (r: Option<CompletionContext>)
        ensures
            match r {
                Some(c) => completion::context_of(self@.input) == Some(c@),
                None => completion::context_of(self@.input) is None,
            },
    {
        find_context(self.input.as_str())
    }

    /// The completions of `ctx`, sorted.
    pub fn completion_matches(&self, ctx: &CompletionContext) -> (r: Vec<String>)
        requires
            self.wf(),
        ensures
            text::views(r@) == self@.matches::<Ctx>(ctx@),
    {
        match ctx {
            CompletionContext::Command { prefix } => keep_prefixed(
                &self.all_command_names(),
                prefix.as_str(),
            ),
            CompletionContext::Arg { cmd_name, arg_index, prior, prefix } => {
                let (i, found) = self.find(cmd_name.as_str());
                if !found {
                    let none: Vec<String> = Vec::new();
                    assert(text::views(none@) =~= Seq::<Seq<char>>::empty());
                    return none;
                }
                let command = &self.commands[i].1;
                let before = borrowed(prior);
                let typed = chars_of(prefix.as_str());
                let eq: usize = position_of(&typed, '=');
                proof {
                    text::first_at_is_first(prefix@, '=');
                }
                if eq < typed.len() {
                    let key = string_of(&typed, 0, eq);
                    assert(key@ =~= prefix@.take(eq as int));
                    let values = command.arg_value_choices_ctx(
                        *arg_index,
                        key.as_str(),
                        before.as_slice(),
                    );
                    return complete_value(values, prefix.as_str());
                }
                let choices = command.arg_choices_ctx(*arg_index, before.as_slice());
                complete_choice(choices, prefix.as_str(), self.input.as_str())
            },
        }
    }

    /// Complete the input line, or step through the completions of an earlier Tab.
    pub fn tab_complete(&mut self)
        requires
            old(self).wf(),
        ensures
            final(self).wf(),
            final(self)@ == old(self)@.tabbed::<Ctx>(),
    {
        let ghost v = self@;
        match self.tab.take() {
            Some(tab) => {
                let mut tab = tab;
                assert(v.tab == Some(tab@));
                assert(tab.index < tab.matches.len());
                let index: usize = (tab.index + 1) % tab.matches.len();
                let input = apply_completion(
                    tab.typed.as_str(),
                    &tab.ctx,
                    tab.matches[index].as_str(),
                );
                tab.index = index;
                self.input = input;
                self.pending_cursor_to_end = true;
                self.tab = Some(tab);
                assert(self@ =~= v.tabbed::<Ctx>());
                return;
            },
            None => {},
        }
        let ctx = match self.completion_context() {
            Some(c) => c,
            None => CompletionContext::Command { prefix: String::new() },
        };
        assert(ctx@ == v.tab_context());
        let matches = self.completion_matches(&ctx);
        assert(text::views(matches@) == v.matches::<Ctx>(ctx@));
        if matches.len() == 0 {
            return;
        }
        let typed = self.input.clone();
        self.input = apply_completion(typed.as_str(), &ctx, matches[0].as_str());
        self.pending_cursor_to_end = true;
        if matches.len() > 1 {
            self.tab = Some(TabState { matches, index: 0, ctx, typed });
        } else {
            self.tab = None;
        }
        assert(self@ =~= v.tabbed::<Ctx>());
    }

    /// Suffix of the first completion that matches the current input: what Tab will add.
    pub fn tab_preview(&self) -> (r: Option<String>)
        requires
            self.wf(),
        ensures
            match r {
                Some(s) => self@.preview::<Ctx>() == Some(s@),
                None => self@.preview::<Ctx>() is None,
            },
    {
        let ctx = match self.completion_context() {
            Some(c) => c,
            None => {
                return None;
            },
        };
        let matches = self.completion_matches(&ctx);
        if matches.len() == 0 {
            return None;
        }
        assert(text::views(matches@)[0] == matches@[0]@);
        let first = chars_of(matches[0].as_str());
        let typed: usize = ctx.prefix().unicode_len();
        if first.len() > typed {
            let rest = string_of(&first, typed, first.len());
            assert(rest@ =~= matches@[0]@.skip(typed as int));
            Some(rest)
        } else {
            None
        }
    }

    // -----------------------------------------------------------------
    // Execution
    // -----------------------------------------------------------------

    /// Print the help listing, or what `target` does.
    pub fn builtin_help(&mut self, target: Option<&str>)
        requires
            old(self).wf(),
        ensures
            final(self).wf(),
            final(self)@ == old(self)@.written(
                old(self)@.help_lines::<Ctx>(
                    match target {
                        Some(t) => Some(t@),
                        None => None,
                    },
                ),
            ),
    {
        match target {
            Some(name) => {
                match Builtin::from_name(name) {
                    Some(b) => {
                        let mut s = b.name().to_owned();
                        s.append(": ");
                        s.append(b.help());
                        self.push_history(HistoryLine::output(s.as_str()));
                    },
                    None => {
                        let (i, found) = self.find(name);
                        if found {
                            let mut s = self.commands[i].1.name().to_owned();
                            s.append(": ");
                            s.append(self.commands[i].1.help());
                            self.push_history(HistoryLine::output(s.as_str()));
                        } else {
                            let mut s = "no command '".to_owned();
                            s.append(name);
                            s.append("'");
                            self.push_history(HistoryLine::error(s.as_str()));
                        }
                    },
                }
            },
            None => {
                self.list_commands();
            },
        }
    }

    fn help_pairs(&self) -> (r: Vec<(String, String)>)
        ensures
            sorting::pair_views(r@) == self@.help_entries::<Ctx>(),
    {
        let mut entries: Vec<(String, String)> = Vec::new();
        let ghost regs = self@.commands.map_values(
            |p: (Seq<char>, C)| (p.1.spec_name(), p.1.spec_help()),
        );
        let mut i: usize = 0;
        while i < self.commands.len()
            invariant
                i <= self.commands.len(),
                regs == slots(self.commands@).map_values(
                    |p: (Seq<char>, C)| (p.1.spec_name(), p.1.spec_help()),
                ),
                sorting::pair_views(entries@) == regs.take(i as int),
            decreases self.commands.len() - i,
        {
            let ghost before = entries@;
            entries.push(
                (self.commands[i].1.name().to_owned(), self.commands[i].1.help().to_owned()),
            );
            assert(sorting::pair_views(entries@) =~= sorting::pair_views(before).push(
                regs[i as int],
            ));
            assert(regs.take(i + 1) =~= regs.take(i as int).push(regs[i as int]));
            i += 1;
        }
        assert(regs.take(regs.len() as int) =~= regs);
        let builtins = Builtin::all();
        let ghost own = builtin::all_builtins().map_values(
            |b: Builtin| (b.spec_name(), b.spec_help()),
        );
        let mut j: usize = 0;
        assert(regs + own.take(0) =~= regs);
        while j < builtins.len()
            invariant
                j <= builtins.len(),
                builtins@ == builtin::all_builtins(),
                own == builtin::all_builtins().map_values(
                    |b: Builtin| (b.spec_name(), b.spec_help()),
                ),
                sorting::pair_views(entries@) == regs + own.take(j as int),
            decreases builtins.len() - j,
        {
            let ghost before = entries@;
            entries.push((builtins[j].name().to_owned(), builtins[j].help().to_owned()));
            assert(sorting::pair_views(entries@) =~= sorting::pair_views(before).push(
                own[j as int],
            ));
            assert(regs + own.take(j + 1) =~= (regs + own.take(j as int)).push(own[j as int]));
            j += 1;
        }
        assert(own.take(own.len() as int) =~= own);
        sort_pairs(entries)
    }

    fn list_commands(&mut self)
        requires
            old(self).wf(),
        ensures
            final(self).wf(),
            final(self)@ == old(self)@.written(old(self)@.help_lines::<Ctx>(None)),
    {
        let ghost v = self@;
        let entries = self.help_pairs();
        let ghost pairs = v.help_entries::<Ctx>();
        let ghost rows = pairs.map_values(|p: (Seq<char>, Seq<char>)| model::help_row(p));
        let ghost head = seq![LineView::output("commands:"@)];
        self.push_history(HistoryLine::output("commands:"));
        let mut i: usize = 0;
        assert(head + rows.take(0) =~= head);
        while i < entries.len()
            invariant
                i <= entries.len(),
                sorting::pair_views(entries@) == pairs,
                rows == pairs.map_values(|p: (Seq<char>, Seq<char>)| model::help_row(p)),
                self.wf(),
                self@ == v.written(head + rows.take(i as int)),
            decreases entries.len() - i,
        {
            let mut s = "  ".to_owned();
            s.append(pad(entries[i].0.as_str(), 16).as_str());
            s.append(" ");
            s.append(entries[i].1.as_str());
            assert(pairs[i as int] == (entries@[i as int].0@, entries@[i as int].1@));
            let ghost w = self@;
            self.push_history(HistoryLine::output(s.as_str()));
            proof {
                let sofar = head + rows.take(i as int);
                written_twice(v, sofar, seq![rows[i as int]]);
                assert(sofar + seq![rows[i as int]] =~= head + rows.take(i + 1));
            }
            i += 1;
        }
        assert(rows.take(rows.len() as int) =~= rows);
    }

    /// Run one of the built-in commands. `target` is the optional first argument.
    pub fn run_builtin(&mut self, builtin: Builtin, target: Option<&str>)
        requires
            old(self).wf(),
        ensures
            final(self).wf(),
            final(self)@ == old(self)@.after_builtin::<Ctx>(
                builtin,
                match target {
                    Some(t) => Some(t@),
                    None => None,
                },
            ),
    {
        match builtin {
            Builtin::Help => {
                self.builtin_help(target);
            },
            Builtin::Clear => {
                self.history.clear();
                assert(line::line_views(self.history@) =~= Seq::<LineView>::empty());
            },
            Builtin::Detach => {
                self.detached = true;
                self.push_history(HistoryLine::system("console detached"));
            },
            Builtin::Dock => {
                self.detached = false;
                self.push_history(HistoryLine::system("console docked"));
            },
        }
    }

    /// Move what a command wrote into the scrollback, and its error behind it.
    pub fn drain_output(&mut self, writer: ConsoleWriter, result: CommandResult)
        requires
            old(self).wf(),
        ensures
            final(self).wf(),
            final(self)@ == old(self)@.after_run(writer@, result),
    {
        let ghost v = self@;
        let lines = writer.lines;
        let ghost all = line::line_views(lines@);
        let mut i: usize = 0;
        assert(v.written(all.take(0)) =~= v) by {
            assert(v.history + all.take(0) =~= v.history);
        }
        while i < lines.len()
            invariant
                i <= lines.len(),
                all == line::line_views(lines@),
                self.wf(),
                self@ == v.written(all.take(i as int)),
            decreases lines.len() - i,
        {
            let copy = HistoryLine { kind: lines[i].kind, text: lines[i].text.clone() };
            assert(copy@ == all[i as int]);
            self.push_history(copy);
            proof {
                written_twice(v, all.take(i as int), seq![all[i as int]]);
                assert(all.take(i as int) + seq![all[i as int]] =~= all.take(i + 1));
            }
            i += 1;
        }
        assert(all.take(all.len() as int) =~= all);
        match result {
            Ok(_) => {
                assert(all + model::error_lines(result) =~= all);
            },
            Err(e) => {
                let mut s = "error: ".to_owned();
                s.append(e.message.as_str());
                self.push_history(HistoryLine::error(s.as_str()));
                proof {
                    written_twice(v, all, model::error_lines(result));
                }
            },
        }
    }

    /// Echo a line into the scrollback and put it into the input history.
    fn echo(&mut self, line: &str)
        requires
            old(self).wf(),
            model::is_entered(line@),
        ensures
            final(self).wf(),
            final(self)@ == old(self)@.echoed(line@),
    {
        let ghost v = self@;
        let mut s = "> ".to_owned();
        s.append(line);
        self.push_history(HistoryLine::input(s.as_str()));
        let n: usize = self.input_history.len();
        let repeat = n > 0 && text_eq(self.input_history[n - 1].as_str(), line);
        if n > 0 {
            assert(v.input_history.last() == self.input_history@[n - 1]@);
        }
        if !repeat {
            let ghost before = self.input_history@;
            let kept = line.to_owned();
            push_capped(&mut self.input_history, kept, MAX_INPUT_HISTORY);
            proof {
                texts_capped(before.push(kept), MAX_INPUT_HISTORY as nat);
                assert(text::views(before.push(kept)) =~= text::views(before).push(line@));
                remembered_lines(v.input_history, line@);
            }
        }
        self.input_history_pos = None;
        self.tab = None;
        assert(self@ =~= v.echoed(line@));
    }
}

impl<Ctx, C: Command<Ctx>> Console<Ctx, C> {
    /// Execute a command line. Echoes input, looks up the command, runs it, drains output.
    /// Built-in commands come before registered ones.
    pub fn execute(&mut self, line: &str, ctx: &mut Ctx)
        requires
            old(self).wf(),
        ensures
            final(self).wf(),
            model::executed::<Ctx, C>(old(self)@, line@, *old(ctx), final(self)@, *final(ctx)),
            model::runs_command(old(self)@, line@) ==> exists|
                k: &mut C,
                a: &[&str],
                c: &mut Ctx,
                w: &mut ConsoleWriter,
                r: CommandResult,
            |
                {
                    let typed = text::trimmed(line@);
                    let name = parse::tokens(typed)[0];
                    &&& *k == old(self)@.registry()[name]
                    &&& *final(k) == final(self)@.registry()[name]
                    &&& text::str_views(a@) == parse::tokens(typed).skip(1)
                    &&& *c == *old(ctx)
                    &&& *final(c) == *final(ctx)
                    &&& w@ == Seq::<LineView>::empty()
                    &&& final(self)@ == (ConsoleView {
                        commands: final(self)@.commands,
                        ..old(self)@.echoed(typed).after_run(final(w)@, r)
                    })
                    &&& #[trigger] call_ensures(<C as Command<Ctx>>::run, (k, a, c, w), r)
                },
    {
        let ghost v = self@;
        let ghost before = *ctx;
        let typed = trim(line);
        if typed.as_str().is_empty() {
            return;
        }
        proof {
            text::trimmed_is_visible(line@);
        }
        self.echo(typed.as_str());
        let ghost e = self@;
        let (name, args) = match parse_line(typed.as_str()) {
            Some(p) => p,
            None => {
                assert(false);
                return;
            },
        };
        let ghost words = parse::tokens(typed@);
        assert(words[0] == name@);
        assert(words.skip(1) =~= text::views(args@));
        match Builtin::from_name(name.as_str()) {
            Some(b) => {
                let target: Option<&str> = if args.len() > 0 {
                    assert(text::views(args@)[0] == args@[0]@);
                    Some(args[0].as_str())
                } else {
                    None
                };
                self.run_builtin(b, target);
                return;
            },
            None => {},
        }
        let (i, found) = self.find(name.as_str());
        if !found {
            let mut s = "no command '".to_owned();
            s.append(name.as_str());
            s.append("'. try: help");
            self.push_history(HistoryLine::error(s.as_str()));
            return;
        }
        let arg_refs = borrowed(&args);
        let mut writer = ConsoleWriter::new();
        let ghost commands0 = self.commands@;
        let result = self.commands[i].1.run(arg_refs.as_slice(), ctx, &mut writer);
        let ghost lines = writer@;
        let ghost run = self@;
        proof {
            assert(forall|j: int|
                0 <= j < commands0.len() && j != i ==> self.commands@[j] == commands0[j]);
            assert(self.commands@[i as int].0 == commands0[i as int].0);
            let now = run.commands;
            let was = v.commands;
            assert forall|j: int| 0 <= j < now.len() implies (#[trigger] now[j]).0 == was[j].0 && (j
                != i ==> now[j] == was[j]) by {
                if j != i {
                    assert(self.commands@[j] == commands0[j]);
                }
            }
            assert forall|a: int, b: int| 0 <= a < b < now.len() implies text::lex_lt(
                #[trigger] now[a].0,
                #[trigger] now[b].0,
            ) by {
                assert(text::lex_lt(was[a].0, was[b].0));
            }
            assert forall|j: int| 0 <= j < self.commands@.len() implies (
            #[trigger] self.commands@[j]).1.ready() by {
                if j != i {
                    assert(self.commands@[j] == commands0[j]);
                }
            }
            assert(was[i as int].0 == name@);
            assert(model::same_but(was, now, name@));
            assert(run =~= ConsoleView { commands: now, ..e });
        }
        self.drain_output(writer, result);
        proof {
            let w = self@;
            assert(v.registry()[name@].effect(
                words.skip(1),
                before,
                *ctx,
                Seq::empty(),
                lines,
                result,
            ));
            assert(w == ConsoleView { commands: w.commands, ..e.after_run(lines, result) });
            assoc::ascending_distinct(w.commands);
            assoc::as_map_at(w.commands, i as int);
        }
    }
}

/// The keys that a frame brought.
pub struct FrameKeys {
    /// Was the toggle key pressed?
    pub toggle: bool,
    /// Every key that was pressed without modifiers.
    pub pressed: Vec<Key>,
    pub panel: PanelKeys,
}

/// The lines bound to pressed keys, in bind order.
pub open spec fn fired(binds: Seq<(Key, Seq<char>)>, pressed: Seq<Key>) -> Seq<Seq<char>>
    decreases binds.len(),
{
    if binds.len() == 0 {
        Seq::empty()
    } else {
        let before = fired(binds.drop_last(), pressed);
        if pressed.contains(binds.last().0) {
            before.push(binds.last().1)
        } else {
            before
        }
    }
}

fn is_pressed(pressed: &Vec<Key>, key: Key) -> (r: bool)
    ensures
        r == pressed@.contains(key),
{
    let mut i: usize = 0;
    while i < pressed.len()
        invariant
            i <= pressed.len(),
            forall|j: int| 0 <= j < i ==> pressed@[j] != key,
        decreases pressed.len() - i,
    {
        if pressed[i] == key {
            return true;
        }
        i += 1;
    }
    false
}

impl<Ctx, C: Command<Ctx>> Console<Ctx, C> {
    /// Up and Down.
    fn recall(&mut self, up: bool, down: bool)
        requires
            old(self).wf(),
        ensures
            final(self).wf(),
            final(self)@ == after_recall(old(self)@, up, down),
    {
        proof {
            reveal(after_recall);
        }
        if up {
            self.history_prev();
        }
        if down {
            self.history_next();
        }
    }

    /// Clear the scrollback, the input line, or both.
    fn clear(&mut self, history: bool, input: bool)
        requires
            old(self).wf(),
        ensures
            final(self).wf(),
            final(self)@ == after_clear(old(self)@, history, input),
    {
        proof {
            reveal(after_clear);
        }
        if history {
            self.history.clear();
            assert(line::line_views(self.history@) =~= Seq::<LineView>::empty());
        }
        if input {
            self.input = String::new();
            self.input_history_pos = None;
            self.tab = None;
        }
        assert(self@ =~= after_clear(old(self)@, history, input));
    }

    /// React to the keys of an open panel.
    pub fn handle_panel_keys(&mut self, keys: PanelKeys)
        requires
            old(self).wf(),
        ensures
            final(self).wf(),
            final(self)@ == after_panel_keys::<Ctx, C>(old(self)@, keys),
    {
        if keys.escape {
            self.close();
        }
        self.recall(keys.up, keys.down);
        if keys.tab {
            self.tab_complete();
        }
        self.clear(keys.clear_history, keys.clear_input);
    }

    /// The lines bound to the pressed keys.
    pub fn bound_lines(&self, pressed: &Vec<Key>) -> (r: Vec<String>)
        ensures
            text::views(r@) == fired(bind_slots(self.binds@), pressed@),
    {
        let mut out: Vec<String> = Vec::new();
        let ghost all = bind_slots(self.binds@);
        let mut i: usize = 0;
        assert(text::views(out@) =~= fired(all.take(0), pressed@));
        while i < self.binds.len()
            invariant
                i <= self.binds.len(),
                all == bind_slots(self.binds@),
                text::views(out@) == fired(all.take(i as int), pressed@),
            decreases self.binds.len() - i,
        {
            assert(all.take(i + 1).drop_last() =~= all.take(i as int));
            assert(all.take(i + 1).last() == (self.binds@[i as int].0, self.binds@[i as int].1@));
            if is_pressed(pressed, self.binds[i].0) {
                let ghost before = out@;
                out.push(self.binds[i].1.clone());
                assert(text::views(out@) =~= text::views(before).push(self.binds@[i as int].1@));
            }
            i += 1;
        }
        assert(all.take(all.len() as int) =~= all);
        out
    }

    /// Execute lines one after the other.
    #[verifier::rlimit(100)]
    #[verifier::spinoff_prover]
    fn execute_all(&mut self, lines: &Vec<String>, ctx: &mut Ctx)
        requires
            old(self).wf(),
        ensures
            final(self).wf(),
            model::executed_all::<Ctx, C>(
                old(self)@,
                text::views(lines@),
                *old(ctx),
                final(self)@,
                *final(ctx),
            ),
            exists|vs: Seq<ConsoleView<C>>, cs: Seq<Ctx>|
                {
                    let all = text::views(lines@);
                    &&& #[trigger] vs.len() == all.len() + 1
                    &&& #[trigger] cs.len() == all.len() + 1
                    &&& vs[0] == old(self)@
                    &&& cs[0] == *old(ctx)
                    &&& vs.last() == final(self)@
                    &&& cs.last() == *final(ctx)
                    &&& forall|i: int|
                        #![trigger vs[i]]
                        0 <= i < all.len() ==> exists|con: &mut Console<Ctx, C>, l: &str, c: &mut Ctx|
                            {
                                &&& con@ == vs[i]
                                &&& final(con)@ == vs[i + 1]
                                &&& l@ == all[i]
                                &&& *c == cs[i]
                                &&& *final(c) == cs[i + 1]
                                &&& #[trigger] call_ensures(Console::<Ctx, C>::execute, (con, l, c), ())
                            }
                },
    {
        let ghost t = self@;
        let ghost before = *ctx;
        let ghost all = text::views(lines@);
        let ghost mut vs: Seq<ConsoleView<C>> = seq![t];
        let ghost mut cs: Seq<Ctx> = seq![before];
        let mut i: usize = 0;
        while i < lines.len()
            invariant
                i <= lines.len(),
                all == text::views(lines@),
                self.wf(),
                model::executed_all::<Ctx, C>(t, all.take(i as int), before, self@, *ctx),
                vs.len() == i + 1,
                cs.len() == i + 1,
                vs[0] == t,
                cs[0] == before,
                vs.last() == self@,
                cs.last() == *ctx,
                forall|j: int|
                    #![trigger vs[j]]
                    0 <= j < i ==> exists|con: &mut Console<Ctx, C>, l: &str, c: &mut Ctx|
                        {
                            &&& con@ == vs[j]
                            &&& final(con)@ == vs[j + 1]
                            &&& l@ == all[j]
                            &&& *c == cs[j]
                            &&& *final(c) == cs[j + 1]
                            &&& #[trigger] call_ensures(Console::<Ctx, C>::execute, (con, l, c), ())
                        },
            decreases lines.len() - i,
        {
            let ghost mid = self@;
            let ghost mid_ctx = *ctx;
            let ghost vs0 = vs;
            let ghost cs0 = cs;
            self.execute(lines[i].as_str(), ctx);
            assert(all.take(i + 1).drop_last() =~= all.take(i as int));
            assert(all.take(i + 1).last() == lines@[i as int]@);
            proof {
                model::executed_one_more::<Ctx, C>(
                    t,
                    all.take(i + 1),
                    before,
                    mid,
                    mid_ctx,
                    self@,
                    *ctx,
                );
                vs = vs.push(self@);
                cs = cs.push(*ctx);
                assert forall|j: int| #![trigger vs[j]] 0 <= j < i + 1 implies exists|con: &mut Console<Ctx, C>, l: &str, c: &mut Ctx|
                    {
                        &&& con@ == vs[j]
                        &&& final(con)@ == vs[j + 1]
                        &&& l@ == all[j]
                        &&& *c == cs[j]
                        &&& *final(c) == cs[j + 1]
                        &&& #[trigger] call_ensures(Console::<Ctx, C>::execute, (con, l, c), ())
                    } by {
                    if j < i {
                        assert(vs[j] == vs0[j] && vs[j + 1] == vs0[j + 1]);
                        assert(cs[j] == cs0[j] && cs[j + 1] == cs0[j + 1]);
                    } else {
                        assert(vs[j] == mid && cs[j] == mid_ctx && all[j] == lines@[j]@);
                    }
                }
            }
            i += 1;
        }
        assert(all.take(all.len() as int) =~= all);
    }

    /// The keys of one frame. The toggle key is always active; bound keys fire only when
    /// the console is closed, so that they do not hijack typing; the panel's own keys act
    /// only when it is open. Each bound line is executed, one after the other.
    pub fn ui(&mut self, keys: &FrameKeys, ctx: &mut Ctx)
        requires
            old(self).wf(),
        ensures
            final(self).wf(),
            ({
                let t = if keys.toggle {
                    old(self)@.toggled()
                } else {
                    old(self)@
                };
                if t.open {
                    *final(ctx) == *old(ctx) && final(self)@ == after_panel_keys::<Ctx, C>(
                        t,
                        keys.panel,
                    )
                } else {
                    let lines = fired(bind_slots(old(self).binds@), keys.pressed@);
                    &&& model::executed_all::<Ctx, C>(
                        t,
                        lines,
                        *old(ctx),
                        final(self)@,
                        *final(ctx),
                    )
                    &&& exists|vs: Seq<ConsoleView<C>>, cs: Seq<Ctx>|
                        {
                            &&& #[trigger] vs.len() == lines.len() + 1
                            &&& #[trigger] cs.len() == lines.len() + 1
                            &&& vs[0] == t
                            &&& cs[0] == *old(ctx)
                            &&& vs.last() == final(self)@
                            &&& cs.last() == *final(ctx)
                            &&& forall|i: int|
                                #![trigger vs[i]]
                                0 <= i < lines.len() ==> exists|con: &mut Console<Ctx, C>, l: &str, c: &mut Ctx|
                                        {
                                            &&& con@ == vs[i]
                                            &&& final(con)@ == vs[i + 1]
                                            &&& l@ == lines[i]
                                            &&& *c == cs[i]
                                            &&& *final(c) == cs[i + 1]
                                            &&& #[trigger] call_ensures(Console::<Ctx, C>::execute, (con, l, c), ())
                                        }
                        }
                }
            }),
    {
        if keys.toggle {
            self.toggle();
        }
        if self.open {
            self.handle_panel_keys(keys.panel);
            return;
        }
        let lines = self.bound_lines(&keys.pressed);
        self.execute_all(&lines, ctx);
    }

    // -----------------------------------------------------------------
    // The panel's text field
    // -----------------------------------------------------------------

    /// Take over what the text field holds. An edit ends a tab cycle, and typing into a
    /// blank input ends recalling.
    pub fn edit_input(&mut self, text: &str)
        ensures
            final(self)@ == (if text@ == old(self)@.input {
                old(self)@
            } else {
                ConsoleView {
                    input: text@,
                    tab: None,
                    input_history_pos: if old(self)@.input.len() == 0 {
                        None
                    } else {
                        old(self)@.input_history_pos
                    },
                    ..old(self)@
                }
            }),
            old(self).wf() ==> final(self).wf(),
    {
        if !text_eq(text, self.input.as_str()) {
            if self.input.as_str().is_empty() {
                self.input_history_pos = None;
            }
            self.input = text.to_owned();
            self.tab = None;
        }
    }

    /// Enter: execute the input line and leave it blank.
    pub fn submit(&mut self, ctx: &mut Ctx)
        requires
            old(self).wf(),
        ensures
            final(self).wf(),
            model::executed::<Ctx, C>(
                (ConsoleView { input: Seq::empty(), ..old(self)@ }),
                old(self)@.input,
                *old(ctx),
                final(self)@,
                *final(ctx),
            ),
            model::runs_command(
                (ConsoleView { input: Seq::empty(), ..old(self)@ }),
                old(self)@.input,
            ) ==> exists|
                k: &mut C,
                a: &[&str],
                c: &mut Ctx,
                w: &mut ConsoleWriter,
                r: CommandResult,
            |
                {
                    let typed = text::trimmed(old(self)@.input);
                    let name = parse::tokens(typed)[0];
                    &&& *k == (ConsoleView { input: Seq::empty(), ..old(self)@ }).registry()[name]
                    &&& *final(k) == final(self)@.registry()[name]
                    &&& text::str_views(a@) == parse::tokens(typed).skip(1)
                    &&& *c == *old(ctx)
                    &&& *final(c) == *final(ctx)
                    &&& w@ == Seq::<LineView>::empty()
                    &&& final(self)@ == (ConsoleView {
                        commands: final(self)@.commands,
                        ..(ConsoleView { input: Seq::empty(), ..old(self)@ }).echoed(typed).after_run(final(w)@, r)
                    })
                    &&& #[trigger] call_ensures(<C as Command<Ctx>>::run, (k, a, c, w), r)
                },
    {
        let line = self.input.clone();
        self.input = String::new();
        assert(self@ =~= ConsoleView { input: Seq::empty(), ..old(self)@ });
        self.execute(line.as_str(), ctx);
    }

    /// Should the text field ask for keyboard focus this frame? Always once after opening;
    /// while docked also whenever it has lost the focus and the user has not clicked
    /// outside the panel.
    pub fn take_focus(&mut self, has_focus: bool) -> (r: bool)
        ensures
            r == (old(self)@.pending_focus || (!old(self)@.detached && !old(self)@.user_defocused
                && !has_focus)),
            final(self)@ == (ConsoleView { pending_focus: false, ..old(self)@ }),
            old(self).wf() ==> final(self).wf(),
    {
        if self.pending_focus {
            self.pending_focus = false;
            true
        } else {
            !self.detached && !self.user_defocused && !has_focus
        }
    }

    /// Should the text cursor move to the end of the input this frame?
    pub fn take_cursor_to_end(&mut self) -> (r: bool)
        ensures
            r == old(self)@.pending_cursor_to_end,
            final(self)@ == (ConsoleView { pending_cursor_to_end: false, ..old(self)@ }),
            old(self).wf() ==> final(self).wf(),
    {
        let r = self.pending_cursor_to_end;
        self.pending_cursor_to_end = false;
        r
    }

    /// The pointer was pressed, inside the docked panel or outside it. Outside gives mouse
    /// and keyboard back to the app; inside takes them again.
    pub fn pointer_pressed(&mut self, inside: bool)
        ensures
            final(self)@ == (ConsoleView { user_defocused: !inside, ..old(self)@ }),
            old(self).wf() ==> final(self).wf(),
    {
        self.user_defocused = !inside;
    }

    /// Is anything of the panel drawn? A detached one while open; a docked one while it is
    /// at least partly slid in.
    pub fn is_visible(&self, slid_in: bool) -> (r: bool)
        ensures
            r == (if self@.detached {
                self@.open
            } else {
                slid_in
            }),
    {
        if self.detached {
            self.open
        } else {
            slid_in
        }
    }
}

impl<Ctx, C: Command<Ctx>> Default for Console<Ctx, C> {
    fn default() -> (r: Self)
        ensures
            r.wf(),
            r@ == ConsoleView::<C>::fresh(),
    {
        Console::new()
    }
}

/// Printable text the OS produces for a toggle key, when one exists. It is stripped from
/// the frame's input together with the key, or it would be typed into the input line.
pub open spec fn text_of_key(key: Key) -> Option<Seq<char>> {
    match key {
        Key::Backtick => Some("`"@),
        _ => None,
    }
}

pub fn key_text(key: Key) -> (r: Option<&'static str>)
    ensures
        match r {
            Some(s) => text_of_key(key) == Some(s@),
            None => text_of_key(key) is None,
        },
{
    match key {
        Key::Backtick => Some("`"),
        _ => None,
    }
}

proof fn written_twice<C>(v: ConsoleView<C>, a: Seq<LineView>, b: Seq<LineView>)
    ensures
        v.written(a).written(b) == v.written(a + b),
{
    ring::capped_twice(v.history + a, b, MAX_HISTORY_LINES as nat);
    assert((v.history + a) + b =~= v.history + (a + b));
}

proof fn remembered_lines(s: Seq<Seq<char>>, line: Seq<char>)
    requires
        model::no_repeats(s),
        s.len() == 0 || s.last() != line,
        model::is_entered(line),
        forall|i: int| 0 <= i < s.len() ==> model::is_entered(#[trigger] s[i]),
    ensures
        model::no_repeats(ring::capped(s.push(line), MAX_INPUT_HISTORY as nat)),
        forall|i: int|
            0 <= i < ring::capped(s.push(line), MAX_INPUT_HISTORY as nat).len()
                ==> model::is_entered(
                #[trigger] ring::capped(s.push(line), MAX_INPUT_HISTORY as nat)[i],
            ),
{
    let all = s.push(line);
    assert forall|i: int| 0 <= i < all.len() - 1 implies #[trigger] all[i] != all[i + 1] by {
        if i < s.len() - 1 {
            assert(s[i] != s[i + 1]);
        }
    }
    let r = ring::capped(all, MAX_INPUT_HISTORY as nat);
    let skip = all.len() - r.len();
    assert forall|i: int| 0 <= i < r.len() implies model::is_entered(#[trigger] r[i]) by {
        assert(r[i] == all[i + skip]);
        if i + skip < s.len() {
            assert(model::is_entered(s[i + skip]));
        }
    }
    assert forall|i: int| 0 <= i < r.len() - 1 implies #[trigger] r[i] != r[i + 1] by {
        assert(r[i] == all[i + skip]);
        assert(r[i + 1] == all[i + skip + 1]);
    }
}

} // verus!
