//! What a console command is, and commands made from closures.

use vstd::prelude::*;

use crate::console::choices;
use crate::console::choices::{copy_slots, slot, ValueTable};
use crate::console::line::{CommandResult, ConsoleWriter, LineView};
use crate::text;

verus! {

/// Console command implementation. Generic over a `Ctx` type so the consuming crate
/// decides what state commands can mutate.
///
/// The `spec_` functions say what the executable ones return; `effect` says what a run may
/// do. The console reads nothing else of a command.
pub trait Command<Ctx> {
    spec fn spec_name(&self) -> Seq<char>;

    spec fn spec_help(&self) -> Seq<char>;

    spec fn spec_arg_choices(&self, arg_index: nat) -> Seq<Seq<char>>;

    spec fn spec_arg_choices_ctx(&self, arg_index: nat, prior: Seq<Seq<char>>) -> Seq<Seq<char>>;

    spec fn spec_arg_value_choices(&self, arg_index: nat, key: Seq<char>) -> Seq<Seq<char>>;

    spec fn spec_arg_value_choices_ctx(
        &self,
        arg_index: nat,
        key: Seq<char>,
        prior: Seq<Seq<char>>,
    ) -> Seq<Seq<char>>;

    /// May the command be run? What a command asks of its own parts; running keeps it.
    spec fn ready(&self) -> bool;

    /// May a run with `args` that finds `before` and the lines `out0` leave `after` and
    /// `out1`, and return `r`?
    spec fn effect(
        &self,
        args: Seq<Seq<char>>,
        before: Ctx,
        after: Ctx,
        out0: Seq<LineView>,
        out1: Seq<LineView>,
        r: CommandResult,
    ) -> bool;

    /// The name typed at the prompt. Conventionally lowercase, dotted for namespacing
    /// (`capture.start`).
    fn name(&self) -> (r: &str)
        ensures
            r@ == self.spec_name(),
    ;

    /// One-line description shown by `help`.
    fn help(&self) -> (r: &str)
        ensures
            r@ == self.spec_help(),
    ;

    /// Tab-completion choices for the `arg_index`-th positional argument, without
    /// awareness of values typed in prior slots. Empty for a free-form argument.
    fn arg_choices(&self, arg_index: usize) -> (r: &[&'static str])
        requires
            self.ready(),
        ensures
            text::str_views(r@) == self.spec_arg_choices(arg_index as nat),
    ;

    /// Context-aware variant of `arg_choices`. Receives the argument tokens parsed before
    /// the current completion position, so completion can branch on prior choices.
    fn arg_choices_ctx<'a>(&'a self, arg_index: usize, prior: &[&str]) -> (r: &'a [&'static str])
        requires
            self.ready(),
        ensures
            text::str_views(r@) == self.spec_arg_choices_ctx(
                arg_index as nat,
                text::str_views(prior@),
            ),
    ;

    /// Enumerable values for a `key=value` argument at `arg_index` whose key is `key` (no
    /// trailing `=`). Empty means free-form.
    fn arg_value_choices<'a>(&'a self, arg_index: usize, key: &str) -> (r: &'a [&'static str])
        requires
            self.ready(),
        ensures
            text::str_views(r@) == self.spec_arg_value_choices(arg_index as nat, key@),
    ;

    /// Context-aware variant of `arg_value_choices`.
    fn arg_value_choices_ctx<'a>(&'a self, arg_index: usize, key: &str, prior: &[&str]) -> (r:
        &'a [&'static str])
        requires
            self.ready(),
        ensures
            text::str_views(r@) == self.spec_arg_value_choices_ctx(
                arg_index as nat,
                key@,
                text::str_views(prior@),
            ),
    ;

    /// Run the command. `args` are the tokens after the command name. Output goes to
    /// `out`; recoverable issues get `out.error(..)`; unrecoverable ones return `Err`.
    fn run(&mut self, args: &[&str], ctx: &mut Ctx, out: &mut ConsoleWriter) -> (r: CommandResult)
        requires
            old(self).ready(),
        ensures
            final(self).ready(),
            old(self).effect(
                text::str_views(args@),
                *old(ctx),
                *final(ctx),
                old(out)@,
                final(out)@,
                r,
            ),
    ;
}

/// A boxed command is the command in the box.
impl<Ctx> Command<Ctx> for Box<dyn Command<Ctx>> {
    open spec fn spec_name(&self) -> Seq<char> {
        (**self).spec_name()
    }

    open spec fn spec_help(&self) -> Seq<char> {
        (**self).spec_help()
    }

    open spec fn spec_arg_choices(&self, arg_index: nat) -> Seq<Seq<char>> {
        (**self).spec_arg_choices(arg_index)
    }

    open spec fn spec_arg_choices_ctx(&self, arg_index: nat, prior: Seq<Seq<char>>) -> Seq<
        Seq<char>,
    > {
        (**self).spec_arg_choices_ctx(arg_index, prior)
    }

    open spec fn spec_arg_value_choices(&self, arg_index: nat, key: Seq<char>) -> Seq<Seq<char>> {
        (**self).spec_arg_value_choices(arg_index, key)
    }

    open spec fn spec_arg_value_choices_ctx(
        &self,
        arg_index: nat,
        key: Seq<char>,
        prior: Seq<Seq<char>>,
    ) -> Seq<Seq<char>> {
        (**self).spec_arg_value_choices_ctx(arg_index, key, prior)
    }

    open spec fn ready(&self) -> bool {
        (**self).ready()
    }

    open spec fn effect(
        &self,
        args: Seq<Seq<char>>,
        before: Ctx,
        after: Ctx,
        out0: Seq<LineView>,
        out1: Seq<LineView>,
        r: CommandResult,
    ) -> bool {
        (**self).effect(args, before, after, out0, out1, r)
    }

    fn name(&self) -> (r: &str) {
        (**self).name()
    }

    fn help(&self) -> (r: &str) {
        (**self).help()
    }

    fn arg_choices(&self, arg_index: usize) -> (r: &[&'static str]) {
        (**self).arg_choices(arg_index)
    }

    fn arg_choices_ctx<'a>(&'a self, arg_index: usize, prior: &[&str]) -> (r: &'a [&'static str]) {
        (**self).arg_choices_ctx(arg_index, prior)
    }

    fn arg_value_choices<'a>(&'a self, arg_index: usize, key: &str) -> (r: &'a [&'static str]) {
        (**self).arg_value_choices(arg_index, key)
    }

    fn arg_value_choices_ctx<'a>(&'a self, arg_index: usize, key: &str, prior: &[&str]) -> (r:
        &'a [&'static str]) {
        (**self).arg_value_choices_ctx(arg_index, key, prior)
    }

    fn run(&mut self, args: &[&str], ctx: &mut Ctx, out: &mut ConsoleWriter) -> (r: CommandResult) {
        (**self).run(args, ctx, out)
    }
}

/// Closure-backed command. Use [`cmd`] to construct.
pub struct FnCommand<F> {
    pub name: &'static str,
    pub help: &'static str,
    pub arg_choices: Vec<Vec<&'static str>>,
    /// Values of `key=value` arguments, applied at every position the key appears at.
    pub value_choices: ValueTable,
    pub f: F,
}

impl<F> FnCommand<F> {
    /// Declare positional-argument choices for tab-completion. Each inner slice lists the
    /// valid values for that position. Trailing free-form arguments can be omitted.
    pub fn with_args(self, choices: &[&[&'static str]]) -> (r: FnCommand<F>)
        ensures
            r.name == self.name,
            r.help == self.help,
            r.value_choices == self.value_choices,
            r.f == self.f,
            choices::slot_views(r.arg_choices@) == choices::declared_views(choices@),
    {
        FnCommand {
            name: self.name,
            help: self.help,
            arg_choices: copy_slots(choices),
            value_choices: self.value_choices,
            f: self.f,
        }
    }

    /// Declare enumerable values for a `key=value` argument. The first Tab completes the
    /// key prefix to `key=`; once `=` is in the input, Tab cycles through these values.
    pub fn with_value_choices(self, key: &'static str, values: &[&'static str]) -> (r: FnCommand<F>)
        ensures
            r.name == self.name,
            r.help == self.help,
            r.arg_choices == self.arg_choices,
            r.f == self.f,
            r.value_choices@ == self.value_choices@.insert(key@, text::str_views(values@)),
    {
        let mut table = self.value_choices;
        table.insert(key, values);
        FnCommand {
            name: self.name,
            help: self.help,
            arg_choices: self.arg_choices,
            value_choices: table,
            f: self.f,
        }
    }
}

/// Can the closure be called on anything?
pub open spec fn callable<Ctx, F: FnMut(&[&str], &mut Ctx, &mut ConsoleWriter) -> CommandResult>(
    f: F,
) -> bool {
    forall|args: &[&str], ctx: &mut Ctx, out: &mut ConsoleWriter| #[trigger]
        call_requires(f, (args, ctx, out))
}

/// Build a command from a closure. The closure mutates a `Ctx` and writes lines into the
/// [`ConsoleWriter`].
pub fn cmd<Ctx, F>(name: &'static str, help: &'static str, f: F) -> (r: FnCommand<F>) where
    F: FnMut(&[&str], &mut Ctx, &mut ConsoleWriter) -> CommandResult + 'static,

    requires
        callable::<Ctx, F>(f),
    ensures
        r.name == name,
        r.help == help,
        r.arg_choices@.len() == 0,
        r.value_choices@ == Map::<Seq<char>, Seq<Seq<char>>>::empty(),
        r.f == f,
        <FnCommand<F> as Command<Ctx>>::ready(&r),
{
    FnCommand { name, help, arg_choices: Vec::new(), value_choices: ValueTable::new(), f }
}

impl<Ctx, F> Command<Ctx> for FnCommand<F> where
    F: FnMut(&[&str], &mut Ctx, &mut ConsoleWriter) -> CommandResult + 'static,
 {
    open spec fn spec_name(&self) -> Seq<char> {
        self.name@
    }

    open spec fn spec_help(&self) -> Seq<char> {
        self.help@
    }

    open spec fn spec_arg_choices(&self, arg_index: nat) -> Seq<Seq<char>> {
        choices::slot_at(choices::slot_views(self.arg_choices@), arg_index)
    }

    open spec fn spec_arg_choices_ctx(&self, arg_index: nat, prior: Seq<Seq<char>>) -> Seq<
        Seq<char>,
    > {
        choices::slot_at(choices::slot_views(self.arg_choices@), arg_index)
    }

    open spec fn spec_arg_value_choices(&self, arg_index: nat, key: Seq<char>) -> Seq<Seq<char>> {
        choices::values_of(self.value_choices@, key)
    }

    open spec fn spec_arg_value_choices_ctx(
        &self,
        arg_index: nat,
        key: Seq<char>,
        prior: Seq<Seq<char>>,
    ) -> Seq<Seq<char>> {
        choices::values_of(self.value_choices@, key)
    }

    open spec fn ready(&self) -> bool {
        callable::<Ctx, F>(self.f)
    }

    /// Whatever the closure does; `run` says that it is the closure that does it.
    open spec fn effect(
        &self,
        args: Seq<Seq<char>>,
        before: Ctx,
        after: Ctx,
        out0: Seq<LineView>,
        out1: Seq<LineView>,
        r: CommandResult,
    ) -> bool {
        true
    }

    fn name(&self) -> (r: &str) {
        self.name
    }

    fn help(&self) -> (r: &str) {
        self.help
    }

    fn arg_choices(&self, arg_index: usize) -> (r: &[&'static str]) {
        slot(&self.arg_choices, arg_index)
    }

    fn arg_choices_ctx<'a>(&'a self, arg_index: usize, prior: &[&str]) -> (r: &'a [&'static str]) {
        slot(&self.arg_choices, arg_index)
    }

    fn arg_value_choices<'a>(&'a self, arg_index: usize, key: &str) -> (r: &'a [&'static str]) {
        self.value_choices.get(key)
    }

    fn arg_value_choices_ctx<'a>(&'a self, arg_index: usize, key: &str, prior: &[&str]) -> (r:
        &'a [&'static str]) {
        self.value_choices.get(key)
    }

    fn run(&mut self, args: &[&str], ctx: &mut Ctx, out: &mut ConsoleWriter) -> (r: CommandResult)
        ensures
            final(self).name == old(self).name,
            final(self).help == old(self).help,
            final(self).arg_choices == old(self).arg_choices,
            final(self).value_choices == old(self).value_choices,
            exists|c: &mut Ctx, w: &mut ConsoleWriter|
                *c == *old(ctx) && *final(c) == *final(ctx) && *w == *old(out) && *final(w)
                    == *final(out) && #[trigger] call_ensures(old(self).f, (args, c, w), r),
    {
        (self.f)(args, ctx, out)
    }
}

// ---------------------------------------------------------------------------
// Laws
// ---------------------------------------------------------------------------

/// What a command declares is what it offers: the choices of a position at that position and
/// none at the positions behind the last, and the values of a key for that key, wherever it
/// stands, with those of other keys left as they were.
pub proof fn declared_choices_are_offered<
    Ctx,
    F: FnMut(&[&str], &mut Ctx, &mut ConsoleWriter) -> CommandResult + 'static,
>(prior: Seq<Seq<char>>, at: nat)
    ensures
        forall|c: FnCommand<F>, choices: &[&[&'static str]], r: FnCommand<F>| #[trigger]
            call_ensures(FnCommand::<F>::with_args, (c, choices), r) ==> {
                let offered = <FnCommand<F> as Command<Ctx>>::spec_arg_choices_ctx(&r, at, prior);
                &&& at < choices@.len() ==> offered == text::str_views(choices@[at as int]@)
                &&& at >= choices@.len() ==> offered.len() == 0
                &&& r.name == c.name && r.help == c.help && r.f == c.f
                &&& r.value_choices@ == c.value_choices@
            },
        forall|
            c: FnCommand<F>,
            key: &'static str,
            values: &[&'static str],
            r: FnCommand<F>,
            other: Seq<char>,
        |
            #![trigger call_ensures(FnCommand::<F>::with_value_choices, (c, key, values), r),
                r.value_choices@.dom().contains(other)]
            call_ensures(FnCommand::<F>::with_value_choices, (c, key, values), r) ==> {
                &&& <FnCommand<F> as Command<Ctx>>::spec_arg_value_choices_ctx(
                    &r,
                    at,
                    key@,
                    prior,
                ) == text::str_views(values@)
                &&& other != key@ ==> <FnCommand<F> as Command<Ctx>>::spec_arg_value_choices_ctx(
                    &r,
                    at,
                    other,
                    prior,
                ) == <FnCommand<F> as Command<Ctx>>::spec_arg_value_choices_ctx(
                    &c,
                    at,
                    other,
                    prior,
                )
                &&& r.name == c.name && r.help == c.help && r.f == c.f && r.arg_choices
                    == c.arg_choices
            },
{
    assert forall|c: FnCommand<F>, choices: &[&[&'static str]], r: FnCommand<F>| #[trigger]
        call_ensures(FnCommand::<F>::with_args, (c, choices), r) implies {
        let offered = <FnCommand<F> as Command<Ctx>>::spec_arg_choices_ctx(&r, at, prior);
        &&& at < choices@.len() ==> offered == text::str_views(choices@[at as int]@)
        &&& at >= choices@.len() ==> offered.len() == 0
        &&& r.name == c.name && r.help == c.help && r.f == c.f
        &&& r.value_choices@ == c.value_choices@
    } by {
        let a = choices::slot_views(r.arg_choices@);
        let b = choices::declared_views(choices@);
        assert(a == b);
        assert(a.len() == b.len());
        if at < choices@.len() {
            assert(a[at as int] == b[at as int]);
        }
    }
}

/// A command made of a closure has its name and description, and offers nothing yet.
pub proof fn new_commands_are_bare<
    Ctx,
    F: FnMut(&[&str], &mut Ctx, &mut ConsoleWriter) -> CommandResult + 'static,
>(prior: Seq<Seq<char>>, at: nat, key: Seq<char>)
    ensures
        forall|name: &'static str, help: &'static str, f: F, r: FnCommand<F>| #[trigger]
            call_ensures(cmd::<Ctx, F>, (name, help, f), r) ==> {
                &&& <FnCommand<F> as Command<Ctx>>::spec_name(&r) == name@
                &&& <FnCommand<F> as Command<Ctx>>::spec_help(&r) == help@
                &&& r.f == f
                &&& <FnCommand<F> as Command<Ctx>>::spec_arg_choices_ctx(&r, at, prior).len() == 0
                &&& <FnCommand<F> as Command<Ctx>>::spec_arg_value_choices_ctx(
                    &r,
                    at,
                    key,
                    prior,
                ).len() == 0
            },
{
}

} // verus!
