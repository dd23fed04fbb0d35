//! The command-line grammar.
//!
//! A line is a list of tokens separated by white space. A token is a run of pieces: a
//! double-quoted piece (`\"` and `\\` are escapes), a single-quoted piece (literal), or a
//! bare character. A quote that is never closed runs to the end of the line, so a
//! half-typed line still has tokens to complete on.

use vstd::prelude::*;

use crate::text;
use crate::text::{chars_of, is_whitespace};

verus! {

/// The content of a double-quoted piece whose opening quote stands just before `i`, and
/// where the line goes on after it.
pub open spec fn double_quoted(s: Seq<char>, i: int) -> (Seq<char>, int)
    decreases s.len() - i,
{
    if i >= s.len() {
        (Seq::empty(), s.len() as int)
    } else if s[i] == '"' {
        (Seq::empty(), i + 1)
    } else if s[i] == '\\' && i + 1 < s.len() && (s[i + 1] == '"' || s[i + 1] == '\\') {
        let rest = double_quoted(s, i + 2);
        (seq![s[i + 1]] + rest.0, rest.1)
    } else {
        let rest = double_quoted(s, i + 1);
        (seq![s[i]] + rest.0, rest.1)
    }
}

/// The content of a single-quoted piece whose opening quote stands just before `i`, and
/// where the line goes on after it.
pub open spec fn single_quoted(s: Seq<char>, i: int) -> (Seq<char>, int)
    decreases s.len() - i,
{
    if i >= s.len() {
        (Seq::empty(), s.len() as int)
    } else if s[i] == '\'' {
        (Seq::empty(), i + 1)
    } else {
        let rest = single_quoted(s, i + 1);
        (seq![s[i]] + rest.0, rest.1)
    }
}

/// Reading a double-quoted piece moves on and stays in the line.
pub proof fn double_quoted_progress(s: Seq<char>, i: int)
    requires
        0 <= i <= s.len(),
    ensures
        i <= double_quoted(s, i).1 <= s.len(),
    decreases s.len() - i,
{
    if i >= s.len() || s[i] == '"' {
    } else if s[i] == '\\' && i + 1 < s.len() && (s[i + 1] == '"' || s[i + 1] == '\\') {
        double_quoted_progress(s, i + 2);
    } else {
        double_quoted_progress(s, i + 1);
    }
}

/// Reading a single-quoted piece moves on and stays in the line.
pub proof fn single_quoted_progress(s: Seq<char>, i: int)
    requires
        0 <= i <= s.len(),
    ensures
        i <= single_quoted(s, i).1 <= s.len(),
    decreases s.len() - i,
{
    if i < s.len() && s[i] != '\'' {
        single_quoted_progress(s, i + 1);
    }
}

/// The rest of the token that `i` stands in, and where it ends.
pub open spec fn token_rest(s: Seq<char>, i: int) -> (Seq<char>, int)
    decreases s.len() - i,
    when 0 <= i
    via token_rest_decreases
{
    if i >= s.len() || text::is_space(s[i]) {
        (Seq::empty(), i)
    } else if s[i] == '"' {
        let piece = double_quoted(s, i + 1);
        let rest = token_rest(s, piece.1);
        (piece.0 + rest.0, rest.1)
    } else if s[i] == '\'' {
        let piece = single_quoted(s, i + 1);
        let rest = token_rest(s, piece.1);
        (piece.0 + rest.0, rest.1)
    } else {
        let rest = token_rest(s, i + 1);
        (seq![s[i]] + rest.0, rest.1)
    }
}

#[via_fn]
proof fn token_rest_decreases(s: Seq<char>, i: int) {
    if i < s.len() && !text::is_space(s[i]) {
        if s[i] == '"' {
            double_quoted_progress(s, i + 1);
        } else if s[i] == '\'' {
            single_quoted_progress(s, i + 1);
        }
    }
}

/// Reading a token moves past its first character and stays in the line.
pub proof fn token_rest_progress(s: Seq<char>, i: int)
    requires
        0 <= i <= s.len(),
    ensures
        i <= token_rest(s, i).1 <= s.len(),
        i < s.len() && !text::is_space(s[i]) ==> i < token_rest(s, i).1,
        token_rest(s, i).1 < s.len() ==> text::is_space(s[token_rest(s, i).1]),
    decreases s.len() - i,
{
    if i < s.len() && !text::is_space(s[i]) {
        if s[i] == '"' {
            double_quoted_progress(s, i + 1);
            token_rest_progress(s, double_quoted(s, i + 1).1);
        } else if s[i] == '\'' {
            single_quoted_progress(s, i + 1);
            token_rest_progress(s, single_quoted(s, i + 1).1);
        } else {
            token_rest_progress(s, i + 1);
        }
    }
}

/// The tokens from `i` on.
pub open spec fn tokens_from(s: Seq<char>, i: int) -> Seq<Seq<char>>
    decreases s.len() - i,
    when 0 <= i
    via tokens_from_decreases
{
    if i >= s.len() {
        Seq::empty()
    } else if text::is_space(s[i]) {
        tokens_from(s, i + 1)
    } else {
        let token = token_rest(s, i);
        seq![token.0] + tokens_from(s, token.1)
    }
}

#[via_fn]
proof fn tokens_from_decreases(s: Seq<char>, i: int) {
    if i < s.len() && !text::is_space(s[i]) {
        token_rest_progress(s, i);
    }
}

/// The tokens of a line.
pub open spec fn tokens(s: Seq<char>) -> Seq<Seq<char>> {
    tokens_from(s, 0)
}

fn read_double_quoted(v: &Vec<char>, start: usize, cur: &mut String) -> (end: usize)
    requires
        start <= v.len(),
    ensures
        end == double_quoted(v@, start as int).1,
        start <= end <= v.len(),
        final(cur)@ == old(cur)@ + double_quoted(v@, start as int).0,
{
    let ghost cur0 = cur@;
    let ghost whole = double_quoted(v@, start as int);
    let mut i: usize = start;
    proof {
        double_quoted_progress(v@, start as int);
    }
    while i < v.len() && v[i] != '"'
        invariant
            start <= i <= v.len(),
            whole == double_quoted(v@, start as int),
            cur0 + whole.0 == cur@ + double_quoted(v@, i as int).0,
            whole.1 == double_quoted(v@, i as int).1,
            start <= whole.1 <= v.len(),
        decreases v.len() - i,
    {
        let ghost before = cur@;
        if v[i] == '\\' && i + 1 < v.len() && (v[i + 1] == '"' || v[i + 1] == '\\') {
            cur.push(v[i + 1]);
            assert(before + (seq![v@[i + 1]] + double_quoted(v@, i + 2).0) =~= cur@
                + double_quoted(v@, i + 2).0);
            i += 2;
        } else {
            cur.push(v[i]);
            assert(before + (seq![v@[i as int]] + double_quoted(v@, i + 1).0) =~= cur@
                + double_quoted(v@, i + 1).0);
            i += 1;
        }
    }
    assert(cur@ + Seq::<char>::empty() =~= cur@);
    if i < v.len() {
        i + 1
    } else {
        i
    }
}

fn read_single_quoted(v: &Vec<char>, start: usize, cur: &mut String) -> (end: usize)
    requires
        start <= v.len(),
    ensures
        end == single_quoted(v@, start as int).1,
        start <= end <= v.len(),
        final(cur)@ == old(cur)@ + single_quoted(v@, start as int).0,
{
    let ghost cur0 = cur@;
    let ghost whole = single_quoted(v@, start as int);
    let mut i: usize = start;
    proof {
        single_quoted_progress(v@, start as int);
    }
    while i < v.len() && v[i] != '\''
        invariant
            start <= i <= v.len(),
            whole == single_quoted(v@, start as int),
            cur0 + whole.0 == cur@ + single_quoted(v@, i as int).0,
            whole.1 == single_quoted(v@, i as int).1,
            start <= whole.1 <= v.len(),
        decreases v.len() - i,
    {
        let ghost before = cur@;
        cur.push(v[i]);
        assert(before + (seq![v@[i as int]] + single_quoted(v@, i + 1).0) =~= cur@ + single_quoted(
            v@,
            i + 1,
        ).0);
        i += 1;
    }
    assert(cur@ + Seq::<char>::empty() =~= cur@);
    if i < v.len() {
        i + 1
    } else {
        i
    }
}

fn read_token(v: &Vec<char>, start: usize) -> (r: (String, usize))
    requires
        start <= v.len(),
    ensures
        r.0@ == token_rest(v@, start as int).0,
        r.1 == token_rest(v@, start as int).1,
        start <= r.1 <= v.len(),
{
    let mut cur = String::new();
    let ghost whole = token_rest(v@, start as int);
    let mut i: usize = start;
    proof {
        token_rest_progress(v@, start as int);
    }
    assert(cur@ + whole.0 =~= whole.0);
    while i < v.len() && !is_whitespace(v[i])
        invariant
            start <= i <= v.len(),
            whole == token_rest(v@, start as int),
            whole.0 == cur@ + token_rest(v@, i as int).0,
            whole.1 == token_rest(v@, i as int).1,
        decreases v.len() - i,
    {
        let ghost before = cur@;
        let ghost at = i as int;
        if v[i] == '"' {
            i = read_double_quoted(v, i + 1, &mut cur);
            assert(before + (double_quoted(v@, at + 1).0 + token_rest(v@, i as int).0) =~= cur@
                + token_rest(v@, i as int).0);
        } else if v[i] == '\'' {
            i = read_single_quoted(v, i + 1, &mut cur);
            assert(before + (single_quoted(v@, at + 1).0 + token_rest(v@, i as int).0) =~= cur@
                + token_rest(v@, i as int).0);
        } else {
            cur.push(v[i]);
            assert(before + (seq![v@[at]] + token_rest(v@, at + 1).0) =~= cur@ + token_rest(
                v@,
                at + 1,
            ).0);
            i += 1;
        }
    }
    assert(cur@ + Seq::<char>::empty() =~= cur@);
    (cur, i)
}

/// Where the token starts that the line ends in, for what stands from `i` on: the length of
/// the line where it ends outside a token.
pub open spec fn partial_from(s: Seq<char>, i: int) -> int
    decreases s.len() - i,
    when 0 <= i
    via partial_from_decreases
{
    if i >= s.len() {
        s.len() as int
    } else if text::is_space(s[i]) {
        partial_from(s, i + 1)
    } else if token_rest(s, i).1 >= s.len() {
        i
    } else {
        partial_from(s, token_rest(s, i).1)
    }
}

#[via_fn]
proof fn partial_from_decreases(s: Seq<char>, i: int) {
    if i < s.len() && !text::is_space(s[i]) {
        token_rest_progress(s, i);
    }
}

/// Where the token that is still being typed starts, its opening quote included. White
/// space inside an open quote is part of that token; behind a finished token, or in a line
/// without one, nothing is being typed, and this is the length of the line.
pub open spec fn partial_start(s: Seq<char>) -> int {
    partial_from(s, 0)
}

/// The partial token lies in the line.
pub proof fn partial_from_bounds(s: Seq<char>, i: int)
    requires
        0 <= i <= s.len(),
    ensures
        i <= partial_from(s, i) <= s.len(),
        partial_from(s, i) < s.len() ==> !text::is_space(s[partial_from(s, i)]) && token_rest(
            s,
            partial_from(s, i),
        ).1 == s.len(),
        tokens_from(s, i).len() == 0 ==> partial_from(s, i) == s.len(),
    decreases s.len() - i,
{
    if i < s.len() {
        if text::is_space(s[i]) {
            partial_from_bounds(s, i + 1);
        } else {
            token_rest_progress(s, i);
            if token_rest(s, i).1 < s.len() {
                partial_from_bounds(s, token_rest(s, i).1);
            }
        }
    }
}

/// Split a line into its tokens, and find where the one that is still being typed starts.
pub fn tokenize_partial(line: &str) -> (r: (Vec<String>, usize))
    ensures
        text::views(r.0@) == tokens(line@),
        r.1 == partial_start(line@),
        r.1 <= line@.len(),
{
    let v = chars_of(line);
    let mut out: Vec<String> = Vec::new();
    let mut i: usize = 0;
    let mut partial: usize = v.len();
    assert(text::views(out@) + tokens(line@) =~= tokens(line@));
    while i < v.len()
        invariant
            i <= v.len(),
            v@ == line@,
            text::views(out@) + tokens_from(line@, i as int) == tokens(line@),
            i < v.len() ==> partial == v.len() && partial_from(line@, i as int) == partial_start(
                line@,
            ),
            i == v.len() ==> partial == partial_start(line@),
            partial <= v.len(),
        decreases v.len() - i,
    {
        if is_whitespace(v[i]) {
            i += 1;
        } else {
            let ghost before = out@;
            let ghost at = i as int;
            proof {
                token_rest_progress(line@, at);
            }
            let (token, end) = read_token(&v, i);
            out.push(token);
            if end == v.len() {
                partial = i;
            }
            i = end;
            assert(text::views(out@) =~= text::views(before).push(token@));
            assert(text::views(before) + (seq![token@] + tokens_from(line@, i as int)) =~= text::views(out@)
                + tokens_from(line@, i as int));
        }
    }
    assert(text::views(out@) =~= tokens(line@));
    (out, partial)
}

/// Split a line into its tokens.
pub fn tokenize(line: &str) -> (out: Vec<String>)
    ensures
        text::views(out@) == tokens(line@),
{
    tokenize_partial(line).0
}

/// Split a line into its command name and arguments. `None` for a line without tokens.
pub fn parse_line(line: &str) -> (r: Option<(String, Vec<String>)>)
    ensures
        match r {
            None => tokens(line@).len() == 0,
            Some((name, args)) => tokens(line@) == seq![name@] + text::views(args@),
        },
{
    let mut all = tokenize(line);
    if all.len() == 0 {
        return None;
    }
    let ghost before = all@;
    let name = all.remove(0);
    assert(tokens(line@) =~= seq![name@] + text::views(all@)) by {
        assert(tokens(line@) == text::views(before));
        assert(all@ == before.remove(0));
    }
    Some((name, all))
}

} // verus!
