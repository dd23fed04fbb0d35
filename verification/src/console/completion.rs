//! Tab completion: what is being completed, what matches, and where a match goes.

use vstd::prelude::*;

use crate::console::parse;
use crate::console::parse::tokenize_partial;
use crate::sorting;
use crate::sorting::sort_texts;
use crate::text;
use crate::text::{
    chars_of, ends_with_whitespace, position_of, split_whitespace, starts_with, string_of, text_eq,
};

verus! {

/// What the user is currently typing, partitioned for completion. `prefix` is the
/// partially typed token under the cursor; it is empty where the user has finished the
/// previous token and is starting the next one.
pub enum CompletionContext {
    /// Completing the command name.
    Command { prefix: String },
    /// Completing positional argument `arg_index` of `cmd_name`. `prior` holds the argument
    /// tokens before the cursor.
    Arg { cmd_name: String, arg_index: usize, prior: Vec<String>, prefix: String },
}

/// A completion context over plain sequences.
#[verifier::ext_equal]
pub enum ContextView {
    Command { prefix: Seq<char> },
    Arg { cmd_name: Seq<char>, arg_index: nat, prior: Seq<Seq<char>>, prefix: Seq<char> },
}

impl View for CompletionContext {
    type V = ContextView;

    open spec fn view(&self) -> ContextView {
        match *self {
            CompletionContext::Command { prefix } => ContextView::Command { prefix: prefix@ },
            CompletionContext::Arg { cmd_name, arg_index, prior, prefix } => ContextView::Arg {
                cmd_name: cmd_name@,
                arg_index: arg_index as nat,
                prior: text::views(prior@),
                prefix: prefix@,
            },
        }
    }
}

impl ContextView {
    pub open spec fn spec_prefix(self) -> Seq<char> {
        match self {
            ContextView::Command { prefix } => prefix,
            ContextView::Arg { cmd_name, arg_index, prior, prefix } => prefix,
        }
    }
}

impl CompletionContext {
    pub fn prefix(&self) -> (r: &str)
        ensures
            r@ == self@.spec_prefix(),
    {
        match self {
            CompletionContext::Command { prefix } => prefix.as_str(),
            CompletionContext::Arg { prefix, .. } => prefix.as_str(),
        }
    }
}

/// What an input line is completing: nothing without a token; the command name while the
/// first token is being typed; else an argument of the command named first, with the last
/// token as its prefix unless white space has closed it. White space inside an open quote
/// closes nothing.
pub open spec fn context_of(input: Seq<char>) -> Option<ContextView> {
    let toks = parse::tokens(input);
    if toks.len() == 0 {
        None
    } else if parse::partial_start(input) == input.len() {
        Some(
            ContextView::Arg {
                cmd_name: toks[0],
                arg_index: (toks.len() - 1) as nat,
                prior: toks.skip(1),
                prefix: Seq::empty(),
            },
        )
    } else if toks.len() == 1 {
        Some(ContextView::Command { prefix: toks[0] })
    } else {
        Some(
            ContextView::Arg {
                cmd_name: toks[0],
                arg_index: (toks.len() - 2) as nat,
                prior: toks.subrange(1, toks.len() - 1),
                prefix: toks.last(),
            },
        )
    }
}

/// Decide what `input` is completing.
pub fn find_context(input: &str) -> (r: Option<CompletionContext>)
    ensures
        match r {
            Some(c) => context_of(input@) == Some(c@),
            None => context_of(input@) is None,
        },
{
    let (mut parts, partial) = tokenize_partial(input);
    let ghost toks = parse::tokens(input@);
    if parts.len() == 0 {
        return None;
    }
    let trailing = partial == input.unicode_len();
    let ghost all = parts@;
    let first = parts.remove(0);
    assert(first@ == toks[0]);
    assert(text::views(parts@) =~= toks.skip(1)) by {
        assert(parts@ == all.remove(0));
    }
    if parts.len() == 0 && !trailing {
        return Some(CompletionContext::Command { prefix: first });
    }
    if trailing {
        let idx: usize = parts.len();
        return Some(
            CompletionContext::Arg {
                cmd_name: first,
                arg_index: idx,
                prior: parts,
                prefix: String::new(),
            },
        );
    }
    let ghost before = parts@;
    let prefix = match parts.pop() {
        Some(p) => p,
        None => String::new(),
    };
    let idx: usize = parts.len();
    assert(text::views(parts@) =~= toks.subrange(1, toks.len() - 1));
    assert(prefix@ == toks.last()) by {
        assert(text::views(before).last() == toks.skip(1).last());
    }
    Some(CompletionContext::Arg { cmd_name: first, arg_index: idx, prior: parts, prefix })
}

/// The texts of `s` that begin with `prefix`.
pub open spec fn with_prefix(s: Seq<Seq<char>>, prefix: Seq<char>) -> Seq<Seq<char>> {
    s.filter(|t: Seq<char>| text::has_prefix(t, prefix))
}

/// Keep the texts that begin with `prefix`.
pub fn keep_prefixed(v: &Vec<String>, prefix: &str) -> (r: Vec<String>)
    ensures
        text::views(r@) == with_prefix(text::views(v@), prefix@),
{
    let mut out: Vec<String> = Vec::new();
    let ghost all = text::views(v@);
    let mut i: usize = 0;
    proof {
        reveal(Seq::filter);
    }
    assert(text::views(out@) =~= with_prefix(all.take(0), prefix@));
    while i < v.len()
        invariant
            i <= v.len(),
            all == text::views(v@),
            text::views(out@) == with_prefix(all.take(i as int), prefix@),
        decreases v.len() - i,
    {
        proof {
            reveal(Seq::filter);
        }
        let ghost t = all.take(i + 1);
        assert(t.drop_last() =~= all.take(i as int));
        assert(t.last() == v@[i as int]@);
        if starts_with(v[i].as_str(), prefix) {
            let ghost before = out@;
            out.push(v[i].clone());
            assert(text::views(out@) =~= text::views(before).push(v@[i as int]@));
        }
        i += 1;
    }
    assert(all.take(all.len() as int) =~= all);
    out
}

/// The `key=` that a text opens with, the whole text where it holds no `=`.
pub open spec fn key_part(s: Seq<char>) -> Seq<char> {
    if s.contains('=') {
        s.take(text::first_at(s, '=') + 1)
    } else {
        s
    }
}

/// The words of the line that are complete: all of them after white space, else all but
/// the last.
pub open spec fn finished_words(input: Seq<char>) -> Seq<Seq<char>> {
    let w = text::words(input);
    if text::ends_in_space(input) || w.len() == 0 {
        w
    } else {
        w.drop_last()
    }
}

/// Has a complete word of the line already given a value to the key that `choice` opens
/// with? Never so for a choice without `=`.
pub open spec fn key_used(input: Seq<char>, choice: Seq<char>) -> bool {
    choice.contains('=') && exists|i: int|
        0 <= i < finished_words(input).len() && (#[trigger] finished_words(input)[i]).contains('=')
            && key_part(finished_words(input)[i]) == key_part(choice)
}

/// Completions of an argument that is not yet past an `=`.
pub open spec fn choice_matches(
    choices: Seq<Seq<char>>,
    prefix: Seq<char>,
    input: Seq<char>,
) -> Seq<Seq<char>> {
    sorting::in_order(
        choices.filter(|c: Seq<char>| text::has_prefix(c, prefix) && !key_used(input, c)),
        sorting::own_key(),
    )
}

/// Completions of the value in `key=value`.
pub open spec fn value_matches(values: Seq<Seq<char>>, prefix: Seq<char>) -> Seq<Seq<char>> {
    let eq = text::first_at(prefix, '=');
    let key = prefix.take(eq);
    sorting::in_order(
        with_prefix(values, prefix.skip(eq + 1)).map_values(|v: Seq<char>| key + "="@ + v),
        sorting::own_key(),
    )
}

/// The `key=` of a text that holds an `=`.
fn key_of(s: &str) -> (r: Option<String>)
    ensures
        match r {
            Some(k) => s@.contains('=') && k@ == key_part(s@),
            None => !s@.contains('='),
        },
{
    let v = chars_of(s);
    let at: usize = position_of(&v, '=');
    proof {
        text::first_at_is_first(s@, '=');
    }
    if at < v.len() {
        let k = string_of(&v, 0, at + 1);
        assert(k@ =~= key_part(s@));
        Some(k)
    } else {
        None
    }
}

fn is_key_used(input: &str, choice: &str) -> (r: bool)
    ensures
        r == key_used(input@, choice@),
{
    let key = match key_of(choice) {
        Some(k) => k,
        None => {
            return false;
        },
    };
    let mut words = split_whitespace(input);
    let ghost all = words@;
    if !ends_with_whitespace(input) {
        let _ = words.pop();
    }
    let ghost done = finished_words(input@);
    assert(text::views(words@) =~= done);
    let mut i: usize = 0;
    while i < words.len()
        invariant
            i <= words.len(),
            done == finished_words(input@),
            text::views(words@) == done,
            choice@.contains('='),
            key@ == key_part(choice@),
            forall|j: int|
                0 <= j < i ==> !((#[trigger] done[j]).contains('=') && key_part(done[j])
                    == key_part(choice@)),
        decreases words.len() - i,
    {
        assert(done[i as int] == words@[i as int]@);
        match key_of(words[i].as_str()) {
            Some(k) => {
                if text_eq(k.as_str(), key.as_str()) {
                    return true;
                }
            },
            None => {},
        }
        i += 1;
    }
    false
}

/// The sorted completions among `choices`.
pub fn complete_choice(choices: &[&'static str], prefix: &str, input: &str) -> (r: Vec<String>)
    ensures
        text::views(r@) == choice_matches(text::str_views(choices@), prefix@, input@),
{
    let mut out: Vec<String> = Vec::new();
    let ghost all = text::str_views(choices@);
    let ghost pred = |c: Seq<char>| text::has_prefix(c, prefix@) && !key_used(input@, c);
    let mut i: usize = 0;
    proof {
        reveal(Seq::filter);
    }
    assert(text::views(out@) =~= all.take(0).filter(pred));
    while i < choices.len()
        invariant
            i <= choices.len(),
            all == text::str_views(choices@),
            pred == (|c: Seq<char>| text::has_prefix(c, prefix@) && !key_used(input@, c)),
            text::views(out@) == all.take(i as int).filter(pred),
        decreases choices.len() - i,
    {
        proof {
            reveal(Seq::filter);
        }
        let ghost t = all.take(i + 1);
        assert(t.drop_last() =~= all.take(i as int));
        assert(t.last() == choices@[i as int]@);
        let choice: &'static str = choices[i];
        if starts_with(choice, prefix) && !is_key_used(input, choice) {
            let ghost before = out@;
            out.push(choice.to_owned());
            assert(text::views(out@) =~= text::views(before).push(choice@));
        }
        i += 1;
    }
    assert(all.take(all.len() as int) =~= all);
    sort_texts(out)
}

/// The sorted completions of `key=value`, where `prefix` holds an `=` at `eq`.
pub fn complete_value(values: &[&'static str], prefix: &str) -> (r: Vec<String>)
    requires
        prefix@.contains('='),
    ensures
        text::views(r@) == value_matches(text::str_views(values@), prefix@),
{
    let v = chars_of(prefix);
    let at: usize = position_of(&v, '=');
    proof {
        text::first_at_is_first(prefix@, '=');
    }
    let key = string_of(&v, 0, at);
    let typed = string_of(&v, at + 1, v.len());
    assert(key@ =~= prefix@.take(at as int));
    assert(typed@ =~= prefix@.skip(at + 1));
    let mut out: Vec<String> = Vec::new();
    let ghost all = text::str_views(values@);
    let ghost full = |v: Seq<char>| key@ + "="@ + v;
    let mut i: usize = 0;
    proof {
        reveal(Seq::filter);
    }
    assert(text::views(out@) =~= with_prefix(all.take(0), typed@).map_values(full));
    while i < values.len()
        invariant
            i <= values.len(),
            all == text::str_views(values@),
            full == (|v: Seq<char>| key@ + "="@ + v),
            text::views(out@) == with_prefix(all.take(i as int), typed@).map_values(full),
        decreases values.len() - i,
    {
        proof {
            reveal(Seq::filter);
        }
        let ghost t = all.take(i + 1);
        assert(t.drop_last() =~= all.take(i as int));
        assert(t.last() == values@[i as int]@);
        if starts_with(values[i], typed.as_str()) {
            let ghost before = out@;
            let mut whole = key.clone();
            whole.append("=");
            whole.append(values[i]);
            out.push(whole);
            assert(text::views(out@) =~= text::views(before).push(whole@));
            assert(with_prefix(t, typed@) =~= with_prefix(all.take(i as int), typed@).push(
                t.last(),
            ));
            assert(with_prefix(t, typed@).map_values(full) =~= with_prefix(
                all.take(i as int),
                typed@,
            ).map_values(full).push(whole@));
        } else {
            assert(with_prefix(t, typed@) =~= with_prefix(all.take(i as int), typed@));
        }
        i += 1;
    }
    assert(all.take(all.len() as int) =~= all);
    sort_texts(out)
}

/// The input with `choice` spliced in where the user is completing. A command name
/// replaces the whole input; an argument replaces the token that is being typed, from its
/// opening quote on, or goes behind the white space where none is. Everything before is kept
/// as typed.
pub open spec fn applied(input: Seq<char>, ctx: ContextView, choice: Seq<char>) -> Seq<char> {
    match ctx {
        ContextView::Command { prefix } => choice,
        ContextView::Arg { cmd_name, arg_index, prior, prefix } => input.take(
            parse::partial_start(input),
        ) + choice,
    }
}

/// Splice `choice` into `input` at the position the user is completing.
pub fn apply_completion(input: &str, ctx: &CompletionContext, choice: &str) -> (r: String)
    ensures
        r@ == applied(input@, ctx@, choice@),
{
    match ctx {
        CompletionContext::Command { .. } => choice.to_owned(),
        CompletionContext::Arg { .. } => {
            let (_, start) = tokenize_partial(input);
            let v = chars_of(input);
            let mut out = string_of(&v, 0, start);
            assert(out@ =~= input@.take(start as int));
            out.append(choice);
            out
        },
    }
}

} // verus!
