//! A command that dispatches to named subcommands by its first argument.

use std::marker::PhantomData;

use vstd::prelude::*;

use crate::assoc;
use crate::console::choices;
use crate::console::choices::{copy_choices, copy_slots, no_choices, slot, ValueTable};
use crate::console::command::Command;
use crate::console::line;
use crate::console::line::{CommandError, CommandResult, ConsoleWriter, LineView};
use crate::text;
use crate::text::{join, pad, text_eq, text_lt, to_ascii_lowercase};

verus! {

/// Handler for an on/off subcommand. Receives the user's context and the parsed bool.
pub trait ToggleHandler<Ctx> {
    spec fn ready(&self) -> bool;

    spec fn effect(&self, before: Ctx, on: bool, after: Ctx, r: CommandResult) -> bool;

    fn set(&mut self, ctx: &mut Ctx, on: bool) -> (r: CommandResult)
        requires
            old(self).ready(),
        ensures
            final(self).ready(),
            old(self).effect(*old(ctx), on, *final(ctx), r),
    ;
}

/// Handler for a fixed-choice subcommand. Receives the user's context and the raw value.
pub trait ChoiceHandler<Ctx> {
    spec fn ready(&self) -> bool;

    spec fn effect(&self, before: Ctx, value: Seq<char>, after: Ctx, r: CommandResult) -> bool;

    fn choose_value(&mut self, ctx: &mut Ctx, value: &str) -> (r: CommandResult)
        requires
            old(self).ready(),
        ensures
            final(self).ready(),
            old(self).effect(*old(ctx), value@, *final(ctx), r),
    ;
}

/// Handler for a custom-grammar subcommand. Receives the user's context, the raw arguments
/// after the subcommand name, and the writer.
pub trait CustomHandler<Ctx> {
    spec fn ready(&self) -> bool;

    spec fn effect(
        &self,
        before: Ctx,
        args: Seq<Seq<char>>,
        after: Ctx,
        out0: Seq<LineView>,
        out1: Seq<LineView>,
        r: CommandResult,
    ) -> bool;

    fn handle(&mut self, ctx: &mut Ctx, args: &[&str], out: &mut ConsoleWriter) -> (r:
        CommandResult)
        requires
            old(self).ready(),
        ensures
            final(self).ready(),
            old(self).effect(
                *old(ctx),
                text::str_views(args@),
                *final(ctx),
                old(out)@,
                final(out)@,
                r,
            ),
    ;
}

/// A boxed handler is the handler in the box.
impl<Ctx> ToggleHandler<Ctx> for Box<dyn ToggleHandler<Ctx>> {
    open spec fn ready(&self) -> bool {
        (**self).ready()
    }

    open spec fn effect(&self, before: Ctx, on: bool, after: Ctx, r: CommandResult) -> bool {
        (**self).effect(before, on, after, r)
    }

    fn set(&mut self, ctx: &mut Ctx, on: bool) -> (r: CommandResult) {
        (**self).set(ctx, on)
    }
}

/// A boxed handler is the handler in the box.
impl<Ctx> ChoiceHandler<Ctx> for Box<dyn ChoiceHandler<Ctx>> {
    open spec fn ready(&self) -> bool {
        (**self).ready()
    }

    open spec fn effect(&self, before: Ctx, value: Seq<char>, after: Ctx, r: CommandResult) -> bool {
        (**self).effect(before, value, after, r)
    }

    fn choose_value(&mut self, ctx: &mut Ctx, value: &str) -> (r: CommandResult) {
        (**self).choose_value(ctx, value)
    }
}

/// A boxed handler is the handler in the box.
impl<Ctx> CustomHandler<Ctx> for Box<dyn CustomHandler<Ctx>> {
    open spec fn ready(&self) -> bool {
        (**self).ready()
    }

    open spec fn effect(
        &self,
        before: Ctx,
        args: Seq<Seq<char>>,
        after: Ctx,
        out0: Seq<LineView>,
        out1: Seq<LineView>,
        r: CommandResult,
    ) -> bool {
        (**self).effect(before, args, after, out0, out1, r)
    }

    fn handle(&mut self, ctx: &mut Ctx, args: &[&str], out: &mut ConsoleWriter) -> (r:
        CommandResult) {
        (**self).handle(ctx, args, out)
    }
}

/// A closure as the handler of a subcommand.
pub struct FnHandler<F> {
    pub f: F,
}

impl<Ctx, F: FnMut(&mut Ctx, bool) -> CommandResult> ToggleHandler<Ctx> for FnHandler<F> {
    open spec fn ready(&self) -> bool {
        forall|ctx: &mut Ctx, on: bool| #[trigger] call_requires(self.f, (ctx, on))
    }

    /// Whatever the closure does; `set` says that it is the closure that does it.
    open spec fn effect(&self, before: Ctx, on: bool, after: Ctx, r: CommandResult) -> bool {
        true
    }

    fn set(&mut self, ctx: &mut Ctx, on: bool) -> (r: CommandResult)
        ensures
            exists|c: &mut Ctx|
                *c == *old(ctx) && *final(c) == *final(ctx) && #[trigger] call_ensures(
                    old(self).f,
                    (c, on),
                    r,
                ),
    {
        (self.f)(ctx, on)
    }
}

impl<Ctx, F: FnMut(&mut Ctx, &str) -> CommandResult> ChoiceHandler<Ctx> for FnHandler<F> {
    open spec fn ready(&self) -> bool {
        forall|ctx: &mut Ctx, value: &str| #[trigger] call_requires(self.f, (ctx, value))
    }

    /// Whatever the closure does; `choose_value` says that it is the closure that does it.
    open spec fn effect(&self, before: Ctx, value: Seq<char>, after: Ctx, r: CommandResult) -> bool {
        true
    }

    fn choose_value(&mut self, ctx: &mut Ctx, value: &str) -> (r: CommandResult)
        ensures
            exists|c: &mut Ctx|
                *c == *old(ctx) && *final(c) == *final(ctx) && #[trigger] call_ensures(
                    old(self).f,
                    (c, value),
                    r,
                ),
    {
        (self.f)(ctx, value)
    }
}

impl<
    Ctx,
    F: FnMut(&mut Ctx, &[&str], &mut ConsoleWriter) -> CommandResult,
> CustomHandler<Ctx> for FnHandler<F> {
    open spec fn ready(&self) -> bool {
        forall|ctx: &mut Ctx, args: &[&str], out: &mut ConsoleWriter| #[trigger]
            call_requires(self.f, (ctx, args, out))
    }

    /// Whatever the closure does; `handle` says that it is the closure that does it.
    open spec fn effect(
        &self,
        before: Ctx,
        args: Seq<Seq<char>>,
        after: Ctx,
        out0: Seq<LineView>,
        out1: Seq<LineView>,
        r: CommandResult,
    ) -> bool {
        true
    }

    fn handle(&mut self, ctx: &mut Ctx, args: &[&str], out: &mut ConsoleWriter) -> (r:
        CommandResult)
        ensures
            exists|c: &mut Ctx, w: &mut ConsoleWriter|
                *c == *old(ctx) && *final(c) == *final(ctx) && *w == *old(out) && *final(w)
                    == *final(out) && #[trigger] call_ensures(old(self).f, (c, args, w), r),
    {
        (self.f)(ctx, args, out)
    }
}

/// How a subcommand reads its value slot and what it offers for completion there.
pub enum SubcommandKind<T, C, K> {
    /// On/off subcommand; completion at the value slot is `off`, `on`.
    Toggle { handler: T },
    /// Fixed-choice subcommand; completion at the value slot comes from `choices`.
    Choice { choices: Vec<&'static str>, handler: C },
    /// Custom grammar. Per-slot choices (slot 0 is the first argument after the subcommand
    /// name) and per-key values drive completion; the handler parses.
    Custom {
        arg_choices: Vec<Vec<&'static str>>,
        value_choices: ValueTable,
        handler: K,
    },
}

/// One subcommand.
pub struct SubcommandEntry<T, C, K> {
    pub help: &'static str,
    pub kind: SubcommandKind<T, C, K>,
}

/// Is the entry's handler ready?
pub open spec fn entry_ready<
    Ctx,
    T: ToggleHandler<Ctx>,
    C: ChoiceHandler<Ctx>,
    K: CustomHandler<Ctx>,
>(e: SubcommandEntry<T, C, K>) -> bool {
    match e.kind {
        SubcommandKind::Toggle { handler } => handler.ready(),
        SubcommandKind::Choice { choices, handler } => handler.ready(),
        SubcommandKind::Custom { arg_choices, value_choices, handler } => handler.ready(),
    }
}

/// A command that dispatches to one of several named subcommands based on the first
/// positional argument. Build with [`subcommands`].
#[verifier::reject_recursive_types(Ctx)]
#[verifier::reject_recursive_types(T)]
#[verifier::reject_recursive_types(C)]
#[verifier::reject_recursive_types(K)]
pub struct SubcommandSet<
    Ctx,
    T = Box<dyn ToggleHandler<Ctx>>,
    C = Box<dyn ChoiceHandler<Ctx>>,
    K = Box<dyn CustomHandler<Ctx>>,
> {
    pub name: &'static str,
    pub help: &'static str,
    /// Subcommands in ascending name order.
    pub subs: Vec<(&'static str, SubcommandEntry<T, C, K>)>,
    /// The names of `subs`.
    pub names: Vec<&'static str>,
    pub context: PhantomData<Ctx>,
}

/// The entries by name.
pub open spec fn entries<T, C, K>(subs: Seq<(&'static str, SubcommandEntry<T, C, K>)>) -> Seq<
    (Seq<char>, SubcommandEntry<T, C, K>),
> {
    subs.map_values(|p: (&'static str, SubcommandEntry<T, C, K>)| (p.0@, p.1))
}

/// The on/off value that a text spells.
pub open spec fn toggle_value(s: Seq<char>) -> Option<bool> {
    let l = text::lowered(s);
    if l == "on"@ || l == "true"@ || l == "1"@ {
        Some(true)
    } else if l == "off"@ || l == "false"@ || l == "0"@ {
        Some(false)
    } else {
        None
    }
}

/// Read an on/off value.
pub fn parse_toggle(s: &str) -> (r: Option<bool>)
    ensures
        r == toggle_value(s@),
{
    let l = to_ascii_lowercase(s);
    let l = l.as_str();
    if text_eq(l, "on") || text_eq(l, "true") || text_eq(l, "1") {
        Some(true)
    } else if text_eq(l, "off") || text_eq(l, "false") || text_eq(l, "0") {
        Some(false)
    } else {
        None
    }
}

/// The help lines of the first `n` subcommands, one under the other.
pub open spec fn usage_rows<T, C, K>(s: Seq<(Seq<char>, SubcommandEntry<T, C, K>)>) -> Seq<char>
    decreases s.len(),
{
    if s.len() == 0 {
        Seq::empty()
    } else {
        usage_rows(s.drop_last()) + "\n  "@ + text::padded(s.last().0, 12) + " "@
            + s.last().1.help@
    }
}

/// The names of the entries.
pub open spec fn entry_names<T, C, K>(s: Seq<(Seq<char>, SubcommandEntry<T, C, K>)>) -> Seq<Seq<char>> {
    s.map_values(|p: (Seq<char>, SubcommandEntry<T, C, K>)| p.0)
}

impl<
    Ctx,
    T: ToggleHandler<Ctx>,
    C: ChoiceHandler<Ctx>,
    K: CustomHandler<Ctx>,
> SubcommandSet<Ctx, T, C, K> {
    /// Entries ascend by name, and `names` lists their names.
    pub open spec fn wf(&self) -> bool {
        &&& assoc::ascending(entries(self.subs@))
        &&& text::str_views(self.names@) == entry_names(entries(self.subs@))
    }

    /// The subcommands by name.
    pub open spec fn map(&self) -> Map<Seq<char>, SubcommandEntry<T, C, K>> {
        assoc::as_map(entries(self.subs@))
    }

    /// Every handler is ready.
    pub open spec fn handlers_ready(&self) -> bool {
        forall|i: int| 0 <= i < self.subs@.len() ==> entry_ready::<Ctx, T, C, K>((#[trigger] self.subs@[i]).1)
    }

    /// Do these arguments reach a handler: do they name a subcommand, and give it a value that
    /// it takes?
    pub open spec fn handles(&self, args: Seq<Seq<char>>) -> bool {
        args.len() > 0 && self.map().dom().contains(args[0]) && match self.map()[args[0]].kind {
            SubcommandKind::Toggle { handler } => args.len() >= 2 && toggle_value(args[1]) is Some,
            SubcommandKind::Choice { choices, handler } => args.len() >= 2,
            SubcommandKind::Custom { arg_choices, value_choices, handler } => true,
        }
    }

    /// Shown when the command is run without arguments.
    pub open spec fn usage(&self) -> Seq<char> {
        "usage: "@ + self.name@ + " <subcommand> <value>; subcommands:"@ + usage_rows(
            entries(self.subs@),
        )
    }

    /// Shown for a first argument that names no subcommand.
    pub open spec fn unknown(&self, sub: Seq<char>) -> Seq<char> {
        "unknown subcommand `"@ + sub + "` for `"@ + self.name@ + "` (try "@ + text::joined(
            entry_names(entries(self.subs@)),
            ", "@,
        ) + ")"@
    }

    fn put(self, name: &'static str, entry: SubcommandEntry<T, C, K>) -> (r: Self)
        requires
            self.wf(),
        ensures
            r.wf(),
            r.name == self.name,
            r.help == self.help,
            r.map() == self.map().insert(name@, entry),
            self.handlers_ready() && entry_ready::<Ctx, T, C, K>(entry) ==> r.handlers_ready(),
    {
        let mut subs = self.subs;
        let mut names = self.names;
        let ghost before = entries(subs@);
        let mut i: usize = 0;
        while i < subs.len() && text_lt(subs[i].0, name)
            invariant
                i <= subs.len(),
                before == entries(subs@),
                forall|j: int| 0 <= j < i ==> text::lex_lt((#[trigger] before[j]).0, name@),
            decreases subs.len() - i,
        {
            assert(before[i as int].0 == subs@[i as int].0@);
            i += 1;
        }
        proof {
            assoc::ascending_distinct(before);
            if i < subs@.len() {
                assert(before[i as int].0 == subs@[i as int].0@);
            }
        }
        if i < subs.len() && text_eq(subs[i].0, name) {
            let ghost old_subs = subs@;
            let key = subs[i].0;
            subs.set(i, (key, entry));
            proof {
                assert(entries(subs@) =~= before.update(i as int, (before[i as int].0, entry)));
                assoc::as_map_update(before, i as int, entry);
                assert(entry_names(entries(subs@)) =~= entry_names(before));
                assert forall|a: int, b: int|
                    0 <= a < b < entries(subs@).len() implies text::lex_lt(
                    #[trigger] entries(subs@)[a].0,
                    #[trigger] entries(subs@)[b].0,
                ) by {
                    assert(entries(subs@)[a].0 == before[a].0);
                    assert(entries(subs@)[b].0 == before[b].0);
                }
                assert forall|j: int|
                    0 <= j < subs@.len() && self.handlers_ready()
                        && entry_ready::<Ctx, T, C, K>(entry) implies entry_ready::<Ctx, T, C, K>((#[trigger] subs@[j]).1) by {
                    if j != i {
                        assert(subs@[j] == old_subs[j]);
                    }
                }
            }
            return SubcommandSet { name: self.name, help: self.help, subs, names, context: PhantomData };
        }
        proof {
            if i < subs@.len() {
                text::lex_total(name@, before[i as int].0);
            }
            assoc::ascending_insert(before, i as int, name@, entry);
            assoc::as_map_insert(before, i as int, name@, entry);
            assert(names@.len() == subs@.len()) by {
                assert(text::str_views(names@).len() == entry_names(before).len());
            }
        }
        let ghost old_subs = subs@;
        let ghost old_names = names@;
        subs.insert(i, (name, entry));
        names.insert(i, name);
        proof {
            assert(entries(subs@) =~= before.insert(i as int, (name@, entry)));
            assert(entry_names(entries(subs@)) =~= entry_names(before).insert(i as int, name@));
            assert(text::str_views(names@) =~= text::str_views(old_names).insert(i as int, name@));
            assert forall|j: int|
                0 <= j < subs@.len() && self.handlers_ready() && entry_ready::<Ctx, T, C, K>(entry) implies entry_ready::<Ctx, T, C, K>(
                (#[trigger] subs@[j]).1,
            ) by {
                if j < i {
                    assert(subs@[j] == old_subs[j]);
                } else if j > i {
                    assert(subs@[j] == old_subs[j - 1]);
                }
            }
        }
        SubcommandSet { name: self.name, help: self.help, subs, names, context: PhantomData }
    }

    /// Register an on/off subcommand. The value slot is read as
    /// `on | off | true | false | 1 | 0`; the handler receives the parsed bool.
    pub fn toggle(
        self,
        name: &'static str,
        help: &'static str,
        handler: T,
    ) -> (r: Self)
        requires
            self.wf(),
        ensures
            r.wf(),
            r.name == self.name,
            r.help == self.help,
            r.map() == self.map().insert(
                name@,
                (SubcommandEntry { help, kind: SubcommandKind::Toggle { handler } }),
            ),
            self.handlers_ready() && handler.ready() ==> r.handlers_ready(),
    {
        self.put(name, SubcommandEntry { help, kind: SubcommandKind::Toggle { handler } })
    }

    /// Register a fixed-choice subcommand. Completion at the value slot comes from
    /// `choices`; the handler receives the raw value, which is not checked against them.
    pub fn choice(
        self,
        name: &'static str,
        help: &'static str,
        choices: &[&'static str],
        handler: C,
    ) -> (r: Self)
        requires
            self.wf(),
        ensures
            r.wf(),
            r.name == self.name,
            r.help == self.help,
            exists|owned: Vec<&'static str>| #[trigger]
                owned@ == choices@ && r.map() == self.map().insert(
                    name@,
                    (SubcommandEntry {
                        help,
                        kind: SubcommandKind::Choice { choices: owned, handler },
                    }),
                ),
            self.handlers_ready() && handler.ready() ==> r.handlers_ready(),
    {
        let owned = copy_choices(choices);
        self.put(
            name,
            SubcommandEntry { help, kind: SubcommandKind::Choice { choices: owned, handler } },
        )
    }

    /// Register a custom-grammar subcommand, for several positional arguments or
    /// `key=value` pairs.
    ///
    /// - `arg_choices[i]` lists completion choices for the i-th argument after the
    ///   subcommand name. Put in `key=` entries for `key=value` arguments.
    /// - `value_choices` lists the values of `key=value` arguments; a key given twice has
    ///   its last values.
    pub fn custom(
        self,
        name: &'static str,
        help: &'static str,
        arg_choices: &[&[&'static str]],
        value_choices: &[(&'static str, &[&'static str])],
        handler: K,
    ) -> (r: Self)
        requires
            self.wf(),
        ensures
            r.wf(),
            r.name == self.name,
            r.help == self.help,
            exists|slots: Vec<Vec<&'static str>>, table: ValueTable|
                #![trigger choices::slot_views(slots@), table@]
                choices::slot_views(slots@) == choices::declared_views(arg_choices@) && table@
                    == value_map(value_choices@) && r.map() == self.map().insert(
                    name@,
                    (SubcommandEntry {
                        help,
                        kind: SubcommandKind::Custom {
                            arg_choices: slots,
                            value_choices: table,
                            handler,
                        },
                    }),
                ),
            self.handlers_ready() && handler.ready() ==> r.handlers_ready(),
    {
        let slots = copy_slots(arg_choices);
        let mut table = ValueTable::new();
        let mut i: usize = 0;
        while i < value_choices.len()
            invariant
                i <= value_choices.len(),
                table@ == value_map(value_choices@.take(i as int)),
            decreases value_choices.len() - i,
        {
            let ghost t = value_choices@.take(i + 1);
            assert(t.drop_last() =~= value_choices@.take(i as int));
            assert(t.last() == value_choices@[i as int]);
            table.insert(value_choices[i].0, value_choices[i].1);
            i += 1;
        }
        assert(value_choices@.take(value_choices@.len() as int) =~= value_choices@);
        assert(choices::slot_views(slots@) == choices::declared_views(arg_choices@));
        self.put(
            name,
            SubcommandEntry {
                help,
                kind: SubcommandKind::Custom { arg_choices: slots, value_choices: table, handler },
            },
        )
    }

    /// The names of the subcommands, ascending.
    pub fn cached_names(&self) -> (r: &[&'static str])
        ensures
            r@ == self.names@,
    {
        self.names.as_slice()
    }
}

/// The values of `key=value` arguments that a list of declarations amounts to.
pub open spec fn value_map(s: Seq<(&'static str, &[&'static str])>) -> Map<
    Seq<char>,
    Seq<Seq<char>>,
>
    decreases s.len(),
{
    if s.len() == 0 {
        Map::empty()
    } else {
        value_map(s.drop_last()).insert(s.last().0@, text::str_views(s.last().1@))
    }
}

/// Build a [`SubcommandSet`] for a multi-subcommand console command.
pub fn subcommands<
    Ctx,
    T: ToggleHandler<Ctx>,
    C: ChoiceHandler<Ctx>,
    K: CustomHandler<Ctx>,
>(name: &'static str, help: &'static str) -> (r: SubcommandSet<Ctx, T, C, K>)
    ensures
        r.wf(),
        r.handlers_ready(),
        r.name == name,
        r.help == help,
        r.map() == Map::<Seq<char>, SubcommandEntry<T, C, K>>::empty(),
{
    let r: SubcommandSet<Ctx, T, C, K> = SubcommandSet {
        name,
        help,
        subs: Vec::new(),
        names: Vec::new(),
        context: PhantomData,
    };
    assert(text::str_views(r.names@) =~= entry_names(entries(r.subs@)));
    assert(r.map() =~= Map::<Seq<char>, SubcommandEntry<T, C, K>>::empty());
    r
}

/// The value slot of an on/off subcommand.
pub open spec fn on_off() -> Seq<Seq<char>> {
    seq!["off"@, "on"@]
}

fn on_off_choices() -> (r: &'static [&'static str])
    ensures
        text::str_views(r@) == on_off(),
{
    let r: &'static [&'static str] = &["off", "on"];
    assert(text::str_views(r@) =~= on_off());
    r
}

impl<
    Ctx,
    T: ToggleHandler<Ctx>,
    C: ChoiceHandler<Ctx>,
    K: CustomHandler<Ctx>,
> SubcommandSet<Ctx, T, C, K> {
    /// Where a subcommand stands, if there is one of that name.
    fn find(&self, sub: &str) -> (r: Option<usize>)
        requires
            self.wf(),
        ensures
            match r {
                Some(i) => i < self.subs@.len() && self.subs@[i as int].0@ == sub@
                    && self.map().dom().contains(sub@) && self.map()[sub@] == self.subs@[i as int].1,
                None => !self.map().dom().contains(sub@),
            },
    {
        let ghost all = entries(self.subs@);
        proof {
            assoc::ascending_distinct(all);
        }
        let mut i: usize = 0;
        while i < self.subs.len()
            invariant
                i <= self.subs.len(),
                all == entries(self.subs@),
                assoc::distinct_keys(all),
                forall|j: int| 0 <= j < i ==> (#[trigger] all[j]).0 != sub@,
            decreases self.subs.len() - i,
        {
            assert(all[i as int] == (self.subs@[i as int].0@, self.subs@[i as int].1));
            if text_eq(self.subs[i].0, sub) {
                proof {
                    assoc::as_map_at(all, i as int);
                }
                return Some(i);
            }
            i += 1;
        }
        None
    }

    fn usage_text(&self) -> (r: String)
        ensures
            r@ == self.usage(),
    {
        let mut msg = "usage: ".to_owned();
        msg.append(self.name);
        msg.append(" <subcommand> <value>; subcommands:");
        let ghost head = msg@;
        let ghost all = entries(self.subs@);
        let mut i: usize = 0;
        assert(head + usage_rows(all.take(0)) =~= head);
        while i < self.subs.len()
            invariant
                i <= self.subs.len(),
                all == entries(self.subs@),
                msg@ == head + usage_rows(all.take(i as int)),
            decreases self.subs.len() - i,
        {
            let ghost t = all.take(i + 1);
            assert(t.drop_last() =~= all.take(i as int));
            assert(t.last() == (self.subs@[i as int].0@, self.subs@[i as int].1));
            msg.append("\n  ");
            msg.append(pad(self.subs[i].0, 12).as_str());
            msg.append(" ");
            msg.append(self.subs[i].1.help);
            assert(msg@ =~= head + usage_rows(t));
            i += 1;
        }
        assert(all.take(all.len() as int) =~= all);
        msg
    }

    fn unknown_text(&self, sub: &str) -> (r: String)
        requires
            self.wf(),
        ensures
            r@ == self.unknown(sub@),
    {
        let mut names: Vec<String> = Vec::new();
        let mut i: usize = 0;
        while i < self.names.len()
            invariant
                i <= self.names.len(),
                text::views(names@) == text::str_views(self.names@.take(i as int)),
            decreases self.names.len() - i,
        {
            let ghost before = names@;
            names.push(self.names[i].to_owned());
            assert(self.names@.take(i + 1) =~= self.names@.take(i as int).push(
                self.names@[i as int],
            ));
            assert(text::views(names@) =~= text::views(before).push(self.names@[i as int]@));
            assert(text::str_views(self.names@.take(i + 1)) =~= text::str_views(
                self.names@.take(i as int),
            ).push(self.names@[i as int]@));
            i += 1;
        }
        assert(self.names@.take(self.names@.len() as int) =~= self.names@);
        let mut msg = "unknown subcommand `".to_owned();
        msg.append(sub);
        msg.append("` for `");
        msg.append(self.name);
        msg.append("` (try ");
        msg.append(join(&names, ", ").as_str());
        msg.append(")");
        msg
    }
}

/// Shown for an on/off subcommand without a value.
pub open spec fn missing_toggle(name: Seq<char>, sub: Seq<char>) -> Seq<char> {
    "usage: "@ + name + " "@ + sub + " <on|off>"@
}

/// Shown for an on/off subcommand with another value.
pub open spec fn bad_toggle(name: Seq<char>, sub: Seq<char>, value: Seq<char>) -> Seq<char> {
    "unknown value `"@ + text::lowered(value) + "` for `"@ + name + " "@ + sub
        + "` (try on|off)"@
}

/// Shown for a fixed-choice subcommand without a value.
pub open spec fn missing_choice(name: Seq<char>, sub: Seq<char>) -> Seq<char> {
    "usage: "@ + name + " "@ + sub + " <value>"@
}

fn missing_toggle_text(name: &str, sub: &str) -> (r: String)
    ensures
        r@ == missing_toggle(name@, sub@),
{
    let mut msg = "usage: ".to_owned();
    msg.append(name);
    msg.append(" ");
    msg.append(sub);
    msg.append(" <on|off>");
    msg
}

fn bad_toggle_text(name: &str, sub: &str, value: &str) -> (r: String)
    ensures
        r@ == bad_toggle(name@, sub@, value@),
{
    let mut msg = "unknown value `".to_owned();
    msg.append(to_ascii_lowercase(value).as_str());
    msg.append("` for `");
    msg.append(name);
    msg.append(" ");
    msg.append(sub);
    msg.append("` (try on|off)");
    msg
}

fn missing_choice_text(name: &str, sub: &str) -> (r: String)
    ensures
        r@ == missing_choice(name@, sub@),
{
    let mut msg = "usage: ".to_owned();
    msg.append(name);
    msg.append(" ");
    msg.append(sub);
    msg.append(" <value>");
    msg
}

/// The arguments after the first.
fn rest_of<'a>(args: &[&'a str]) -> (r: Vec<&'a str>)
    requires
        args@.len() > 0,
    ensures
        text::str_views(r@) == text::str_views(args@).skip(1),
{
    let mut out: Vec<&'a str> = Vec::new();
    let mut i: usize = 1;
    while i < args.len()
        invariant
            1 <= i <= args.len(),
            out@ == args@.subrange(1, i as int),
        decreases args.len() - i,
    {
        out.push(args[i]);
        assert(args@.subrange(1, i + 1) =~= args@.subrange(1, i as int).push(args@[i as int]));
        i += 1;
    }
    assert(text::str_views(out@) =~= text::str_views(args@).skip(1));
    out
}

impl<
    Ctx,
    T: ToggleHandler<Ctx>,
    C: ChoiceHandler<Ctx>,
    K: CustomHandler<Ctx>,
> Command<Ctx> for SubcommandSet<Ctx, T, C, K> {
    open spec fn spec_name(&self) -> Seq<char> {
        self.name@
    }

    open spec fn spec_help(&self) -> Seq<char> {
        self.help@
    }

    open spec fn spec_arg_choices(&self, arg_index: nat) -> Seq<Seq<char>> {
        if arg_index == 0 {
            text::str_views(self.names@)
        } else {
            Seq::empty()
        }
    }

    /// The subcommand names first; after that, what the chosen subcommand offers for the
    /// slot.
    open spec fn spec_arg_choices_ctx(&self, arg_index: nat, prior: Seq<Seq<char>>) -> Seq<
        Seq<char>,
    > {
        if arg_index == 0 {
            text::str_views(self.names@)
        } else if prior.len() == 0 || !self.map().dom().contains(prior[0]) {
            Seq::empty()
        } else {
            match self.map()[prior[0]].kind {
                SubcommandKind::Toggle { handler } => if arg_index == 1 {
                    on_off()
                } else {
                    Seq::empty()
                },
                SubcommandKind::Choice { choices, handler } => if arg_index == 1 {
                    text::str_views(choices@)
                } else {
                    Seq::empty()
                },
                SubcommandKind::Custom { arg_choices, value_choices, handler } => choices::slot_at(
                    choices::slot_views(arg_choices@),
                    (arg_index - 1) as nat,
                ),
            }
        }
    }

    open spec fn spec_arg_value_choices(&self, arg_index: nat, key: Seq<char>) -> Seq<Seq<char>> {
        Seq::empty()
    }

    /// The values that the chosen subcommand declares for the key.
    open spec fn spec_arg_value_choices_ctx(
        &self,
        arg_index: nat,
        key: Seq<char>,
        prior: Seq<Seq<char>>,
    ) -> Seq<Seq<char>> {
        if prior.len() == 0 || !self.map().dom().contains(prior[0]) {
            Seq::empty()
        } else {
            match self.map()[prior[0]].kind {
                SubcommandKind::Custom { arg_choices, value_choices, handler } => choices::values_of(
                    value_choices@,
                    key,
                ),
                _ => Seq::empty(),
            }
        }
    }

    open spec fn ready(&self) -> bool {
        self.wf() && self.handlers_ready()
    }

    /// Without arguments, or with a first argument that names no subcommand, nothing
    /// changes and the message says so. Otherwise the subcommand's handler runs on what
    /// follows, once its value slot has been read.
    open spec fn effect(
        &self,
        args: Seq<Seq<char>>,
        before: Ctx,
        after: Ctx,
        out0: Seq<LineView>,
        out1: Seq<LineView>,
        r: CommandResult,
    ) -> bool {
        if args.len() == 0 {
            after == before && out1 == out0 && line::failure(r) == Some(self.usage())
        } else if !self.map().dom().contains(args[0]) {
            after == before && out1 == out0 && line::failure(r) == Some(self.unknown(args[0]))
        } else {
            match self.map()[args[0]].kind {
                SubcommandKind::Toggle { handler } => {
                    &&& out1 == out0
                    &&& if args.len() < 2 {
                        after == before && line::failure(r) == Some(
                            missing_toggle(self.name@, args[0]),
                        )
                    } else {
                        match toggle_value(args[1]) {
                            None => after == before && line::failure(r) == Some(
                                bad_toggle(self.name@, args[0], args[1]),
                            ),
                            Some(on) => handler.effect(before, on, after, r),
                        }
                    }
                },
                SubcommandKind::Choice { choices, handler } => {
                    &&& out1 == out0
                    &&& if args.len() < 2 {
                        after == before && line::failure(r) == Some(
                            missing_choice(self.name@, args[0]),
                        )
                    } else {
                        handler.effect(before, args[1], after, r)
                    }
                },
                SubcommandKind::Custom { arg_choices, value_choices, handler } => handler.effect(
                    before,
                    args.skip(1),
                    after,
                    out0,
                    out1,
                    r,
                ),
            }
        }
    }

    fn name(&self) -> (r: &str) {
        self.name
    }

    fn help(&self) -> (r: &str) {
        self.help
    }

    fn arg_choices(&self, arg_index: usize) -> (r: &[&'static str]) {
        if arg_index == 0 {
            self.cached_names()
        } else {
            no_choices()
        }
    }

    fn arg_choices_ctx<'a>(&'a self, arg_index: usize, prior: &[&str]) -> (r: &'a [&'static str]) {
        if arg_index == 0 {
            return self.cached_names();
        }
        if prior.len() == 0 {
            return no_choices();
        }
        assert(text::str_views(prior@)[0] == prior@[0]@);
        let i = match self.find(prior[0]) {
            Some(i) => i,
            None => {
                return no_choices();
            },
        };
        match &self.subs[i].1.kind {
            SubcommandKind::Toggle { .. } => if arg_index == 1 {
                on_off_choices()
            } else {
                no_choices()
            },
            SubcommandKind::Choice { choices, .. } => if arg_index == 1 {
                choices.as_slice()
            } else {
                no_choices()
            },
            SubcommandKind::Custom { arg_choices, .. } => slot(arg_choices, arg_index - 1),
        }
    }

    fn arg_value_choices<'a>(&'a self, arg_index: usize, key: &str) -> (r: &'a [&'static str]) {
        no_choices()
    }

    fn arg_value_choices_ctx<'a>(&'a self, arg_index: usize, key: &str, prior: &[&str]) -> (r:
        &'a [&'static str]) {
        if prior.len() == 0 {
            return no_choices();
        }
        assert(text::str_views(prior@)[0] == prior@[0]@);
        let i = match self.find(prior[0]) {
            Some(i) => i,
            None => {
                return no_choices();
            },
        };
        match &self.subs[i].1.kind {
            SubcommandKind::Custom { value_choices, .. } => value_choices.get(key),
            _ => no_choices(),
        }
    }

    /// The chosen subcommand's handler is the one that runs, on the value or the arguments
    /// behind the subcommand's name; nothing else of the set changes.
    fn run(&mut self, args: &[&str], ctx: &mut Ctx, out: &mut ConsoleWriter) -> (r: CommandResult)
        ensures
            final(self).name == old(self).name,
            final(self).help == old(self).help,
            final(self).names == old(self).names,
            !old(self).handles(text::str_views(args@)) ==> final(self).map() == old(self).map(),
            old(self).handles(text::str_views(args@)) ==> {
                let words = text::str_views(args@);
                let entry = old(self).map()[words[0]];
                match entry.kind {
                    SubcommandKind::Toggle { handler } => exists|h: &mut T, c: &mut Ctx|
                        {
                            &&& *h == handler
                            &&& *c == *old(ctx)
                            &&& *final(c) == *final(ctx)
                            &&& final(self).map() == old(self).map().insert(
                                words[0],
                                (SubcommandEntry {
                                    help: entry.help,
                                    kind: SubcommandKind::Toggle { handler: *final(h) },
                                }),
                            )
                            &&& #[trigger] call_ensures(
                                <T as ToggleHandler<Ctx>>::set,
                                (h, c, toggle_value(words[1])->0),
                                r,
                            )
                        },
                    SubcommandKind::Choice { choices, handler } => exists|
                        h: &mut C,
                        c: &mut Ctx,
                        value: &str,
                    |
                        {
                            &&& *h == handler
                            &&& *c == *old(ctx)
                            &&& *final(c) == *final(ctx)
                            &&& value@ == words[1]
                            &&& final(self).map() == old(self).map().insert(
                                words[0],
                                (SubcommandEntry {
                                    help: entry.help,
                                    kind: SubcommandKind::Choice { choices, handler: *final(h) },
                                }),
                            )
                            &&& #[trigger] call_ensures(
                                <C as ChoiceHandler<Ctx>>::choose_value,
                                (h, c, value),
                                r,
                            )
                        },
                    SubcommandKind::Custom { arg_choices, value_choices, handler } => exists|
                        h: &mut K,
                        c: &mut Ctx,
                        a: &[&str],
                        w: &mut ConsoleWriter,
                    |
                        {
                            &&& *h == handler
                            &&& *c == *old(ctx)
                            &&& *final(c) == *final(ctx)
                            &&& text::str_views(a@) == words.skip(1)
                            &&& *w == *old(out)
                            &&& *final(w) == *final(out)
                            &&& final(self).map() == old(self).map().insert(
                                words[0],
                                (SubcommandEntry {
                                    help: entry.help,
                                    kind: SubcommandKind::Custom {
                                        arg_choices,
                                        value_choices,
                                        handler: *final(h),
                                    },
                                }),
                            )
                            &&& #[trigger] call_ensures(
                                <K as CustomHandler<Ctx>>::handle,
                                (h, c, a, w),
                                r,
                            )
                        },
                }
            },
    {
        if args.len() == 0 {
            return Err(CommandError { message: self.usage_text() });
        }
        let ghost words = text::str_views(args@);
        assert(words[0] == args@[0]@);
        let sub = args[0];
        let i = match self.find(sub) {
            Some(i) => i,
            None => {
                return Err(CommandError { message: self.unknown_text(sub) });
            },
        };
        let name = self.name;
        let ghost old_subs = self.subs@;
        let r = match &mut self.subs[i].1.kind {
            SubcommandKind::Toggle { handler } => if args.len() < 2 {
                Err(CommandError { message: missing_toggle_text(name, sub) })
            } else {
                assert(words[1] == args@[1]@);
                match parse_toggle(args[1]) {
                    None => Err(CommandError { message: bad_toggle_text(name, sub, args[1]) }),
                    Some(on) => handler.set(ctx, on),
                }
            },
            SubcommandKind::Choice { handler, .. } => if args.len() < 2 {
                Err(CommandError { message: missing_choice_text(name, sub) })
            } else {
                assert(words[1] == args@[1]@);
                handler.choose_value(ctx, args[1])
            },
            SubcommandKind::Custom { handler, .. } => {
                let rest = rest_of(args);
                handler.handle(ctx, rest.as_slice(), out)
            },
        };
        proof {
            let subs = self.subs@;
            assert(forall|j: int| 0 <= j < subs.len() && j != i ==> subs[j] == old_subs[j]);
            assert(subs[i as int].0 == old_subs[i as int].0);
            let all = entries(subs);
            let all0 = entries(old_subs);
            assert forall|j: int| 0 <= j < all.len() implies (#[trigger] all[j]).0 == all0[j].0 by {
                if j != i {
                    assert(subs[j] == old_subs[j]);
                }
            }
            assert(entry_names(all) =~= entry_names(all0));
            assert forall|a: int, b: int| 0 <= a < b < all.len() implies text::lex_lt(
                #[trigger] all[a].0,
                #[trigger] all[b].0,
            ) by {
                assert(text::lex_lt(all0[a].0, all0[b].0));
            }
            assert forall|j: int| 0 <= j < subs.len() implies entry_ready::<Ctx, T, C, K>(
                (#[trigger] subs[j]).1,
            ) by {
                assert(entry_ready::<Ctx, T, C, K>(old_subs[j].1));
            }
            assoc::ascending_distinct(all0);
            assert(all =~= all0.update(i as int, (all0[i as int].0, subs[i as int].1)));
            assoc::as_map_update(all0, i as int, subs[i as int].1);
            assert(self.map() == old(self).map().insert(words[0], subs[i as int].1));
            if !old(self).handles(words) {
                assert(subs[i as int] == old_subs[i as int]);
                assert(all =~= all0);
            }
        }
        r
    }
}

// ---------------------------------------------------------------------------
// Laws
// ---------------------------------------------------------------------------

proof fn toggle_words_differ()
    ensures
        "on"@ != "off"@,
        "on"@ != "false"@,
        "on"@ != "0"@,
        "true"@ != "off"@,
        "true"@ != "false"@,
        "true"@ != "0"@,
        "1"@ != "off"@,
        "1"@ != "false"@,
        "1"@ != "0"@,
{
    reveal_strlit("on");
    reveal_strlit("true");
    reveal_strlit("1");
    reveal_strlit("off");
    reveal_strlit("false");
    reveal_strlit("0");
    assert("on"@.len() == 2 && "true"@.len() == 4 && "1"@.len() == 1);
    assert("off"@.len() == 3 && "false"@.len() == 5 && "0"@.len() == 1);
    assert("1"@[0] != "0"@[0]);
}

/// On and off are read in each of their spellings, whatever the case of their letters, and
/// nothing else is.
pub proof fn toggles_are_read_in_all_spellings()
    ensures
        forall|s: &str, r: Option<bool>| #[trigger]
            call_ensures(parse_toggle, (s,), r) ==> {
                let l = text::lowered(s@);
                &&& r == Some(true) <==> l == "on"@ || l == "true"@ || l == "1"@
                &&& r == Some(false) <==> l == "off"@ || l == "false"@ || l == "0"@
            },
{
    toggle_words_differ();
}

/// Is this what running a set of subcommands leads to? Without a subcommand, with one that is
/// not known, and without a value where one is needed or with one that is none, nothing is
/// done but to fail; else the subcommand's handler gets what stands behind its name.
pub open spec fn dispatch_meets<
    Ctx,
    T: ToggleHandler<Ctx>,
    C: ChoiceHandler<Ctx>,
    K: CustomHandler<Ctx>,
>(
    set: SubcommandSet<Ctx, T, C, K>,
    args: Seq<Seq<char>>,
    before: Ctx,
    after: Ctx,
    out0: Seq<LineView>,
    out1: Seq<LineView>,
    r: CommandResult,
) -> bool {
    let entry = set.map()[args[0]];
    let known = args.len() > 0 && set.map().dom().contains(args[0]);
    let idle = after == before && out1 == out0 && r is Err;
    &&& !known ==> idle
    &&& args.len() > 0 && !known ==> text::has_part(r->Err_0.message@, args[0])
    &&& known && !(entry.kind is Custom) ==> out1 == out0
    &&& known && !(entry.kind is Custom) && args.len() == 1 ==> idle
    &&& known && entry.kind is Toggle && args.len() > 1 ==> {
        let l = text::lowered(args[1]);
        let handler = entry.kind->Toggle_handler;
        &&& l == "on"@ || l == "true"@ || l == "1"@ ==> handler.effect(before, true, after, r)
        &&& l == "off"@ || l == "false"@ || l == "0"@ ==> handler.effect(before, false, after, r)
        &&& l != "on"@ && l != "true"@ && l != "1"@ && l != "off"@ && l != "false"@ && l != "0"@
            ==> idle
    }
    &&& known && entry.kind is Choice && args.len() > 1 ==> entry.kind->Choice_handler.effect(
        before,
        args[1],
        after,
        r,
    )
    &&& known && entry.kind is Custom ==> entry.kind->Custom_handler.effect(
        before,
        args.skip(1),
        after,
        out0,
        out1,
        r,
    )
}

/// Subcommands reach their handlers, with the values that were given.
pub proof fn subcommands_reach_their_handlers<
    Ctx,
    T: ToggleHandler<Ctx>,
    C: ChoiceHandler<Ctx>,
    K: CustomHandler<Ctx>,
>()
    ensures
        forall|
            set: &mut SubcommandSet<Ctx, T, C, K>,
            args: &[&str],
            ctx: &mut Ctx,
            out: &mut ConsoleWriter,
            r: CommandResult,
        |
            #[trigger] call_ensures(
                <SubcommandSet<Ctx, T, C, K> as Command<Ctx>>::run,
                (set, args, ctx, out),
                r,
            ) ==> dispatch_meets::<Ctx, T, C, K>(
                *set,
                text::str_views(args@),
                *ctx,
                *final(ctx),
                (*out)@,
                (*final(out))@,
                r,
            ),
{
    assert forall|
        set: &mut SubcommandSet<Ctx, T, C, K>,
        args: &[&str],
        ctx: &mut Ctx,
        out: &mut ConsoleWriter,
        r: CommandResult,
    |
        #[trigger] call_ensures(
            <SubcommandSet<Ctx, T, C, K> as Command<Ctx>>::run,
            (set, args, ctx, out),
            r,
        ) implies dispatch_meets::<Ctx, T, C, K>(
        *set,
        text::str_views(args@),
        *ctx,
        *final(ctx),
        (*out)@,
        (*final(out))@,
        r,
    ) by {
        toggle_words_differ();
        let a = text::str_views(args@);
        if a.len() > 0 && !(*set).map().dom().contains(a[0]) {
            let head = "unknown subcommand `"@;
            let tail = "` for `"@ + (*set).name@ + "` (try "@ + text::joined(
                entry_names(entries((*set).subs@)),
                ", "@,
            ) + ")"@;
            text::parts_are_found(head, a[0], tail);
            let m = r->Err_0.message@;
            assert(m =~= head + a[0] + tail);
            assert(m.subrange(head.len() as int, (head.len() + a[0].len()) as int) =~= a[0]);
            assert(text::stands_at(m, a[0], head.len() as int));
        }
    }
}

/// What is offered is taken: each name that is offered for the first argument is that of a
/// subcommand, and each subcommand's name is offered; what a toggle offers are on and off; a
/// choice offers its choices.
pub proof fn offered_subcommands_are_taken<
    Ctx,
    T: ToggleHandler<Ctx>,
    C: ChoiceHandler<Ctx>,
    K: CustomHandler<Ctx>,
>(set: SubcommandSet<Ctx, T, C, K>)
    requires
        set.wf(),
    ensures
        forall|prior: Seq<Seq<char>>, name: Seq<char>| #[trigger]
            set.spec_arg_choices_ctx(0, prior).contains(name) <==> set.map().dom().contains(name),
        forall|prior: Seq<Seq<char>>|
            prior.len() == 1 && set.map().dom().contains(prior[0]) ==> {
                let entry = set.map()[prior[0]];
                let offered = #[trigger] set.spec_arg_choices_ctx(1, prior);
                &&& entry.kind is Toggle ==> offered == seq!["off"@, "on"@] && toggle_value(
                    offered[0],
                ) == Some(false) && toggle_value(offered[1]) == Some(true)
                &&& entry.kind is Choice ==> offered == text::str_views(entry.kind->choices@)
                &&& entry.kind is Custom && entry.kind->arg_choices@.len() > 0 ==> offered
                    == text::str_views(entry.kind->arg_choices@[0]@)
            },
{
    let e = entries(set.subs@);
    let names = text::str_views(set.names@);
    assert forall|prior: Seq<Seq<char>>, name: Seq<char>| #[trigger]
        set.spec_arg_choices_ctx(0, prior).contains(name) <==> set.map().dom().contains(name) by {
        if names.contains(name) {
            let i = choose|i: int| 0 <= i < names.len() && names[i] == name;
            assert(e[i].0 == name);
            assert(assoc::has_key(e, name));
        }
        if set.map().dom().contains(name) {
            assert(assoc::has_key(e, name));
            let i = assoc::place_of(e, name);
            assert(entry_names(e)[i] == name);
        }
    }
    toggle_words_differ();
    reveal_strlit("on");
    reveal_strlit("off");
    assert(text::lowered("on"@) =~= "on"@);
    assert(text::lowered("off"@) =~= "off"@);
}

/// A subcommand that is added is found under its name, with its handler, and no other is
/// touched.
pub proof fn added_subcommands_are_found<
    Ctx,
    T: ToggleHandler<Ctx>,
    C: ChoiceHandler<Ctx>,
    K: CustomHandler<Ctx>,
>()
    ensures
        forall|
            set: SubcommandSet<Ctx, T, C, K>,
            name: &'static str,
            help: &'static str,
            handler: T,
            r: SubcommandSet<Ctx, T, C, K>,
        |
            #[trigger] call_ensures(
                SubcommandSet::<Ctx, T, C, K>::toggle,
                (set, name, help, handler),
                r,
            ) ==> {
                &&& r.map().dom().contains(name@)
                &&& r.map()[name@].help == help
                &&& r.map()[name@].kind is Toggle && r.map()[name@].kind->Toggle_handler == handler
                &&& others_kept(set.map(), r.map(), name@)
            },
        forall|
            set: SubcommandSet<Ctx, T, C, K>,
            name: &'static str,
            help: &'static str,
            choices: &[&'static str],
            handler: C,
            r: SubcommandSet<Ctx, T, C, K>,
        |
            #[trigger] call_ensures(
                SubcommandSet::<Ctx, T, C, K>::choice,
                (set, name, help, choices, handler),
                r,
            ) ==> {
                &&& r.map().dom().contains(name@)
                &&& r.map()[name@].help == help
                &&& r.map()[name@].kind is Choice && r.map()[name@].kind->Choice_handler == handler
                    && r.map()[name@].kind->choices@ == choices@
                &&& others_kept(set.map(), r.map(), name@)
            },
        forall|
            set: SubcommandSet<Ctx, T, C, K>,
            name: &'static str,
            help: &'static str,
            arg_choices: &[&[&'static str]],
            value_choices: &[(&'static str, &[&'static str])],
            handler: K,
            r: SubcommandSet<Ctx, T, C, K>,
        |
            #[trigger] call_ensures(
                SubcommandSet::<Ctx, T, C, K>::custom,
                (set, name, help, arg_choices, value_choices, handler),
                r,
            ) ==> {
                let kind = r.map()[name@].kind;
                &&& r.map().dom().contains(name@)
                &&& r.map()[name@].help == help
                &&& kind is Custom && kind->Custom_handler == handler
                &&& kind->arg_choices@.len() == arg_choices@.len()
                &&& forall|k: int|
                    0 <= k < arg_choices@.len() ==> text::str_views(
                        (#[trigger] kind->arg_choices@[k])@,
                    ) == text::str_views(arg_choices@[k]@)
                &&& others_kept(set.map(), r.map(), name@)
            },
{
    assert forall|
        set: SubcommandSet<Ctx, T, C, K>,
        name: &'static str,
        help: &'static str,
        arg_choices: &[&[&'static str]],
        value_choices: &[(&'static str, &[&'static str])],
        handler: K,
        r: SubcommandSet<Ctx, T, C, K>,
    |
        #[trigger] call_ensures(
            SubcommandSet::<Ctx, T, C, K>::custom,
            (set, name, help, arg_choices, value_choices, handler),
            r,
        ) implies {
        let kind = r.map()[name@].kind;
        &&& r.map().dom().contains(name@)
        &&& r.map()[name@].help == help
        &&& kind is Custom && kind->Custom_handler == handler
        &&& kind->arg_choices@.len() == arg_choices@.len()
        &&& forall|k: int|
            0 <= k < arg_choices@.len() ==> text::str_views((#[trigger] kind->arg_choices@[k])@)
                == text::str_views(arg_choices@[k]@)
        &&& others_kept(set.map(), r.map(), name@)
    } by {
        let kind = r.map()[name@].kind;
        let a = choices::slot_views(kind->arg_choices@);
        let b = choices::declared_views(arg_choices@);
        assert(a == b);
        assert(a.len() == b.len());
        assert forall|k: int| 0 <= k < arg_choices@.len() implies text::str_views(
            (#[trigger] kind->arg_choices@[k])@,
        ) == text::str_views(arg_choices@[k]@) by {
            assert(a[k] == b[k]);
        }
    }
}

/// Do the two agree but on `name`?
pub open spec fn others_kept<V>(
    a: Map<Seq<char>, V>,
    b: Map<Seq<char>, V>,
    name: Seq<char>,
) -> bool {
    forall|other: Seq<char>|
        other != name ==> (#[trigger] b.dom().contains(other) <==> a.dom().contains(other))
            && b[other] == a[other]
}

/// A set of subcommands starts with its name and description and without any, and lists the
/// names of those that it has.
pub proof fn fresh_sets_are_empty<
    Ctx,
    T: ToggleHandler<Ctx>,
    C: ChoiceHandler<Ctx>,
    K: CustomHandler<Ctx>,
>()
    ensures
        forall|name: &'static str, help: &'static str, r: SubcommandSet<Ctx, T, C, K>| #[trigger]
            call_ensures(subcommands::<Ctx, T, C, K>, (name, help), r) ==> r.name == name && r.help
                == help && forall|sub: Seq<char>| !(#[trigger] r.map().dom().contains(sub)),
        forall|set: &SubcommandSet<Ctx, T, C, K>, r: &[&'static str]| #[trigger]
            call_ensures(SubcommandSet::<Ctx, T, C, K>::cached_names, (set,), r) && set.wf()
                ==> forall|sub: Seq<char>| #[trigger]
                text::str_views(r@).contains(sub) <==> set.map().dom().contains(sub),
{
    assert forall|set: &SubcommandSet<Ctx, T, C, K>, r: &[&'static str]| #[trigger]
        call_ensures(
            SubcommandSet::<Ctx, T, C, K>::cached_names,
            (set,),
            r,
        ) && set.wf() implies forall|sub: Seq<char>| #[trigger]
        text::str_views(r@).contains(sub) <==> set.map().dom().contains(sub) by {
        offered_subcommands_are_taken::<Ctx, T, C, K>(*set);
        assert forall|sub: Seq<char>| #[trigger]
            text::str_views(r@).contains(sub) <==> set.map().dom().contains(sub) by {
            assert(set.spec_arg_choices_ctx(0, Seq::empty()) == text::str_views(r@));
            assert(set.spec_arg_choices_ctx(0, Seq::empty()).contains(sub) <==> set.map().dom().contains(
            sub));
        }
    }
}

proof fn rows_stand_in_the_usage<T, C, K>(s: Seq<(Seq<char>, SubcommandEntry<T, C, K>)>, k: int)
    requires
        0 <= k < s.len(),
    ensures
        text::has_part(
            usage_rows(s),
            "\n  "@ + text::padded(s[k].0, 12) + " "@ + s[k].1.help@,
        ),
    decreases s.len(),
{
    let before = usage_rows(s.drop_last());
    let all = usage_rows(s);
    let t = "\n  "@ + text::padded(s[k].0, 12) + " "@ + s[k].1.help@;
    if k == s.len() - 1 {
        assert(all =~= before + t);
        assert(all.subrange(before.len() as int, (before.len() + t.len()) as int) =~= t);
        assert(text::stands_at(all, t, before.len() as int));
    } else {
        rows_stand_in_the_usage(s.drop_last(), k);
        assert(s.drop_last()[k] == s[k]);
        let i = choose|i: int| text::stands_at(before, t, i);
        assert(all.subrange(i, (i + t.len()) as int) =~= before.subrange(i, (i + t.len()) as int));
        assert(text::stands_at(all, t, i));
    }
}

/// A line that cannot be taken is answered with what would be: without a subcommand all of them,
/// each with what it is for; without a value the form of the line; with a value that is neither on
/// nor off the value and the two.
pub proof fn refused_lines_are_told_what_is_taken<
    Ctx,
    T: ToggleHandler<Ctx>,
    C: ChoiceHandler<Ctx>,
    K: CustomHandler<Ctx>,
>(k: int)
    ensures
        forall|
            set: &mut SubcommandSet<Ctx, T, C, K>,
            args: &[&str],
            ctx: &mut Ctx,
            out: &mut ConsoleWriter,
            r: CommandResult,
        |
            #[trigger] call_ensures(
                <SubcommandSet<Ctx, T, C, K> as Command<Ctx>>::run,
                (set, args, ctx, out),
                r,
            ) ==> {
                let a = text::str_views(args@);
                let all = entries((*set).subs@);
                let kind = (*set).map()[a[0]].kind;
                let known = a.len() > 0 && (*set).map().dom().contains(a[0]);
                &&& a.len() == 0 && 0 <= k < all.len() ==> text::has_part(
                    r->Err_0.message@,
                    "\n  "@ + text::padded(all[k].0, 12) + " "@ + all[k].1.help@,
                )
                &&& known && a.len() == 1 && kind is Toggle ==> r->Err_0.message@ == "usage: "@
                    + (*set).name@ + " "@ + a[0] + " <on|off>"@
                &&& known && a.len() == 1 && kind is Choice ==> r->Err_0.message@ == "usage: "@
                    + (*set).name@ + " "@ + a[0] + " <value>"@
                &&& known && a.len() > 1 && kind is Toggle && toggle_value(a[1]) is None
                    ==> r->Err_0.message@ == "unknown value `"@ + text::lowered(a[1]) + "` for `"@
                    + (*set).name@ + " "@ + a[0] + "` (try on|off)"@
            },
{
    assert forall|
        set: &mut SubcommandSet<Ctx, T, C, K>,
        args: &[&str],
        ctx: &mut Ctx,
        out: &mut ConsoleWriter,
        r: CommandResult,
    |
        #[trigger] call_ensures(
            <SubcommandSet<Ctx, T, C, K> as Command<Ctx>>::run,
            (set, args, ctx, out),
            r,
        ) && args@.len() == 0 && 0 <= k < entries((*set).subs@).len() implies text::has_part(
        r->Err_0.message@,
        "\n  "@ + text::padded(entries((*set).subs@)[k].0, 12) + " "@ + entries(
            (*set).subs@,
        )[k].1.help@,
    ) by {
        let all = entries((*set).subs@);
        let t = "\n  "@ + text::padded(all[k].0, 12) + " "@ + all[k].1.help@;
        rows_stand_in_the_usage(all, k);
        let rows = usage_rows(all);
        let i = choose|i: int| text::stands_at(rows, t, i);
        let head = "usage: "@ + (*set).name@ + " <subcommand> <value>; subcommands:"@;
        let m = r->Err_0.message@;
        assert(m == (*set).usage());
        assert(m =~= head + rows);
        assert(m.subrange(head.len() + i, head.len() + i + t.len()) =~= rows.subrange(
            i,
            (i + t.len()) as int,
        ));
        assert(text::stands_at(m, t, head.len() + i));
    }
}

} // verus!
