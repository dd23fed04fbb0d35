//! What holds of the console as a whole.

use vstd::prelude::*;

use crate::assoc;
use crate::console::builtin;
use crate::console::builtin::Builtin;
use crate::console::command::Command;
use crate::console::completion;
use crate::console::completion::{CompletionContext, ContextView};
use crate::console::line::LineView;
use crate::console::model;
use crate::console::model::{ConsoleView, TabView};
use crate::console::parse;
use crate::console::Console;
use crate::ring;
use crate::sorting;
use crate::text;

verus! {

// ---------------------------------------------------------------------------
// Quoting
// ---------------------------------------------------------------------------

/// `t` with a backslash before each double quote and each backslash.
pub open spec fn escaped(t: Seq<char>) -> Seq<char>
    decreases t.len(),
{
    if t.len() == 0 {
        Seq::empty()
    } else if t[0] == '"' || t[0] == '\\' {
        seq!['\\', t[0]] + escaped(t.drop_first())
    } else {
        seq![t[0]] + escaped(t.drop_first())
    }
}

/// `t` in double quotes.
pub open spec fn quoted(t: Seq<char>) -> Seq<char> {
    seq!['"'] + escaped(t) + seq!['"']
}

/// Texts in double quotes, one space between them.
pub open spec fn quoted_line(args: Seq<Seq<char>>) -> Seq<char>
    decreases args.len(),
{
    if args.len() == 0 {
        Seq::empty()
    } else if args.len() == 1 {
        quoted(args[0])
    } else {
        quoted(args[0]) + seq![' '] + quoted_line(args.drop_first())
    }
}

/// What stands in `s` from `i` on.
spec fn stands(s: Seq<char>, i: int, part: Seq<char>) -> bool {
    0 <= i && i + part.len() <= s.len() && forall|k: int|
        0 <= k < part.len() ==> s[i + k] == #[trigger] part[k]
}

proof fn escaped_reads_back(s: Seq<char>, i: int, t: Seq<char>)
    requires
        stands(s, i, escaped(t)),
    ensures
        ({
            let end = i + escaped(t).len();
            let r = parse::double_quoted(s, i);
            &&& end < s.len() && s[end] == '"' ==> r == (t, end + 1)
            &&& end == s.len() ==> r == (t, end)
        }),
    decreases t.len(),
{
    if t.len() == 0 {
        assert(t =~= Seq::empty());
    } else {
        let rest = t.drop_first();
        let e = escaped(t);
        let n: int = if t[0] == '"' || t[0] == '\\' {
            2
        } else {
            1
        };
        assert(e.len() == n + escaped(rest).len());
        assert(stands(s, i + n, escaped(rest))) by {
            assert forall|k: int| 0 <= k < escaped(rest).len() implies s[i + n + k]
                == #[trigger] escaped(rest)[k] by {
                assert(e[n + k] == escaped(rest)[k]);
            }
        }
        escaped_reads_back(s, i + n, rest);
        assert(s[i] == e[0]);
        if n == 2 {
            assert(s[i + 1] == e[1]);
        } else {
            // A backslash that is kept as it is stands before a character that it does not
            // escape: `t[0]` is neither a quote nor a backslash here.
            assert(e[0] == t[0]);
        }
        assert(seq![t[0]] + rest =~= t);
    }
}

/// A token ends where white space or the line's end follows.
proof fn quoted_token(s: Seq<char>, i: int, t: Seq<char>)
    requires
        stands(s, i, quoted(t)),
        ({
            let end = i + quoted(t).len();
            end == s.len() || text::is_space(s[end])
        }),
    ensures
        parse::token_rest(s, i) == (t, i + quoted(t).len()),
        i < s.len(),
        !text::is_space(s[i]),
{
    let q = quoted(t);
    assert(q[0] == '"');
    assert(s[i] == q[0]);
    assert(stands(s, i + 1, escaped(t))) by {
        assert forall|k: int| 0 <= k < escaped(t).len() implies s[i + 1 + k] == #[trigger] escaped(
            t,
        )[k] by {
            assert(q[1 + k] == escaped(t)[k]);
        }
    }
    let last = escaped(t).len() + 1;
    assert(q[last as int] == '"');
    assert(s[i + last] == '"');
    escaped_reads_back(s, i + 1, t);
    let end = i + q.len();
    assert(parse::token_rest(s, end) == (Seq::<char>::empty(), end));
    assert(t + Seq::<char>::empty() =~= t);
}

proof fn quoted_tokens_from(s: Seq<char>, i: int, args: Seq<Seq<char>>)
    requires
        0 <= i,
        stands(s, i, quoted_line(args)),
        i + quoted_line(args).len() == s.len(),
    ensures
        parse::tokens_from(s, i) == args,
    decreases args.len(),
{
    let line = quoted_line(args);
    if args.len() == 0 {
        assert(args =~= Seq::empty());
    } else {
        let q = quoted(args[0]);
        let rest = args.drop_first();
        assert(stands(s, i, q)) by {
            assert forall|k: int| 0 <= k < q.len() implies s[i + k] == #[trigger] q[k] by {
                assert(line[k] == q[k]);
            }
        }
        let end = i + q.len();
        if args.len() == 1 {
            quoted_token(s, i, args[0]);
            assert(seq![args[0]] =~= args);
            assert(parse::tokens_from(s, end) == Seq::<Seq<char>>::empty());
            assert(seq![args[0]] + Seq::<Seq<char>>::empty() =~= args);
        } else {
            assert(line[q.len() as int] == ' ');
            assert(s[end] == ' ');
            quoted_token(s, i, args[0]);
            assert(stands(s, end + 1, quoted_line(rest))) by {
                assert forall|k: int| 0 <= k < quoted_line(rest).len() implies s[end + 1 + k]
                    == #[trigger] quoted_line(rest)[k] by {
                    assert(line[q.len() + 1 + k] == quoted_line(rest)[k]);
                }
            }
            quoted_tokens_from(s, end + 1, rest);
            assert(parse::tokens_from(s, end) == parse::tokens_from(s, end + 1));
            assert(seq![args[0]] + rest =~= args);
        }
    }
}

/// Any list of texts can be typed: quoted, with quotes and backslashes escaped, it is read
/// back as it was. So spaces survive in double quotes, and both escapes are undone.
pub proof fn quoting_round_trips(args: Seq<Seq<char>>)
    ensures
        parse::tokens(quoted_line(args)) == args,
{
    quoted_tokens_from(quoted_line(args), 0, args);
}

proof fn single_reads_back(s: Seq<char>, i: int, t: Seq<char>)
    requires
        stands(s, i, t),
        !t.contains('\''),
    ensures
        ({
            let end = i + t.len();
            let r = parse::single_quoted(s, i);
            &&& end < s.len() && s[end] == '\'' ==> r == (t, end + 1)
            &&& end == s.len() ==> r == (t, end)
        }),
    decreases t.len(),
{
    if t.len() == 0 {
        assert(t =~= Seq::empty());
    } else {
        let rest = t.drop_first();
        assert(s[i] == t[0]);
        assert(t.contains(t[0]));
        assert(stands(s, i + 1, rest)) by {
            assert forall|k: int| 0 <= k < rest.len() implies s[i + 1 + k] == #[trigger] rest[k] by {
                assert(t[1 + k] == rest[k]);
            }
        }
        assert(!rest.contains('\'')) by {
            if rest.contains('\'') {
                let k = choose|k: int| 0 <= k < rest.len() && rest[k] == '\'';
                assert(t[k + 1] == '\'');
            }
        }
        single_reads_back(s, i + 1, rest);
        assert(seq![t[0]] + rest =~= t);
    }
}

/// Single quotes are literal: what stands between them is one token, backslashes and double
/// quotes and spaces included.
pub proof fn single_quotes_are_literal(t: Seq<char>)
    requires
        !t.contains('\''),
    ensures
        parse::tokens(seq!['\''] + t + seq!['\'']) == seq![t],
{
    let s = seq!['\''] + t + seq!['\''];
    assert(stands(s, 1, t));
    single_reads_back(s, 1, t);
    assert(s[0] == '\'');
    assert(s[1 + t.len() as int] == '\'');
    assert(!text::is_space(s[0]));
    assert(parse::token_rest(s, s.len() as int) == (Seq::<char>::empty(), s.len() as int));
    assert(t + Seq::<char>::empty() =~= t);
    assert(parse::token_rest(s, 0) == (t, s.len() as int));
    assert(parse::tokens_from(s, s.len() as int) == Seq::<Seq<char>>::empty());
    assert(seq![t] + Seq::<Seq<char>>::empty() =~= seq![t]);
}

/// A quote that is never closed runs to the end of the line.
pub proof fn unclosed_quotes_run_to_the_end(t: Seq<char>)
    ensures
        parse::tokens(seq!['"'] + escaped(t)) == seq![t],
        !t.contains('\'') ==> parse::tokens(seq!['\''] + t) == seq![t],
{
    let s = seq!['"'] + escaped(t);
    let n = s.len() as int;
    assert(stands(s, 1, escaped(t)));
    escaped_reads_back(s, 1, t);
    assert(s[0] == '"');
    assert(parse::token_rest(s, n) == (Seq::<char>::empty(), n));
    assert(t + Seq::<char>::empty() =~= t);
    assert(parse::token_rest(s, 0) == (t, n));
    assert(parse::tokens_from(s, n) == Seq::<Seq<char>>::empty());
    assert(seq![t] + Seq::<Seq<char>>::empty() =~= seq![t]);
    if !t.contains('\'') {
        let u = seq!['\''] + t;
        let m = u.len() as int;
        assert(stands(u, 1, t));
        single_reads_back(u, 1, t);
        assert(u[0] == '\'');
        assert(parse::token_rest(u, m) == (Seq::<char>::empty(), m));
        assert(parse::token_rest(u, 0) == (t, m));
        assert(parse::tokens_from(u, m) == Seq::<Seq<char>>::empty());
    }
}

/// Can the text stand between double quotes as it is: does it hold no double quote, and no
/// backslash before another, or at its end?
pub open spec fn needs_no_escape(t: Seq<char>) -> bool {
    &&& forall|k: int| 0 <= k < t.len() ==> #[trigger] t[k] != '"'
    &&& forall|k: int, j: int|
        0 <= k && j == k + 1 && j < t.len() ==> !(#[trigger] t[k] == '\\' && #[trigger] t[j] == '\\')
    &&& t.len() > 0 ==> t.last() != '\\'
}

proof fn plain_quote_reads_back(s: Seq<char>, i: int, t: Seq<char>)
    requires
        stands(s, i, t),
        needs_no_escape(t),
        i + t.len() < s.len(),
        s[i + t.len()] == '"',
    ensures
        parse::double_quoted(s, i) == (t, i + t.len() + 1),
    decreases t.len(),
{
    if t.len() == 0 {
        assert(t =~= Seq::empty());
    } else {
        let rest = t.drop_first();
        assert(s[i] == t[0]);
        assert(stands(s, i + 1, rest)) by {
            assert forall|k: int| 0 <= k < rest.len() implies s[i + 1 + k] == #[trigger] rest[k] by {
                assert(t[1 + k] == rest[k]);
            }
        }
        assert(needs_no_escape(rest)) by {
            assert forall|k: int| 0 <= k < rest.len() implies #[trigger] rest[k] != '"' by {
                assert(t[k + 1] != '"');
            }
            assert forall|k: int, j: int| 0 <= k && j == k + 1 && j < rest.len() implies !(
            #[trigger] rest[k] == '\\' && #[trigger] rest[j] == '\\') by {
                assert(rest[k] == t[k + 1] && rest[j] == t[j + 1]);
            }
        }
        plain_quote_reads_back(s, i + 1, rest);
        if t[0] == '\\' {
            assert(t.len() > 1) by {
                assert(t.last() == t[t.len() - 1]);
            }
            assert(s[i + 1] == t[1]) by {
                assert(t[1] == rest[0]);
            }
            assert(t[1] != '"');
        }
        assert(seq![t[0]] + rest =~= t);
    }
}

/// A backslash escapes nothing but a double quote and a backslash: before any other character it
/// stands for itself.
pub proof fn other_backslashes_stay(t: Seq<char>)
    requires
        needs_no_escape(t),
    ensures
        parse::tokens(seq!['"'] + t + seq!['"']) == seq![t],
{
    let s = seq!['"'] + t + seq!['"'];
    let n = s.len() as int;
    assert(stands(s, 1, t));
    assert(s[1 + t.len() as int] == '"');
    plain_quote_reads_back(s, 1, t);
    assert(s[0] == '"');
    assert(!text::is_space(s[0]));
    assert(parse::token_rest(s, n) == (Seq::<char>::empty(), n));
    assert(t + Seq::<char>::empty() =~= t);
    assert(parse::token_rest(s, 0) == (t, n));
    assert(parse::tokens_from(s, n) == Seq::<Seq<char>>::empty());
    assert(seq![t] + Seq::<Seq<char>>::empty() =~= seq![t]);
}

proof fn bare_then_rest(s: Seq<char>, i: int, a: Seq<char>)
    requires
        0 <= i,
        stands(s, i, a),
        forall|k: int| 0 <= k < a.len() ==> is_bare(#[trigger] a[k]),
    ensures
        ({
            let t = parse::token_rest(s, i + a.len());
            parse::token_rest(s, i) == (a + t.0, t.1)
        }),
    decreases a.len(),
{
    if a.len() == 0 {
        let t = parse::token_rest(s, i);
        assert(a + t.0 =~= t.0);
    } else {
        let d = a.drop_first();
        assert(s[i] == a[0]);
        assert(is_bare(a[0]));
        assert(stands(s, i + 1, d)) by {
            assert forall|k: int| 0 <= k < d.len() implies s[i + 1 + k] == #[trigger] d[k] by {
                assert(a[1 + k] == d[k]);
            }
        }
        assert forall|k: int| 0 <= k < d.len() implies is_bare(#[trigger] d[k]) by {
            assert(a[k + 1] == d[k]);
        }
        bare_then_rest(s, i + 1, d);
        let t = parse::token_rest(s, i + a.len());
        assert(seq![a[0]] + (d + t.0) =~= a + t.0);
    }
}

/// Quotes may stand within a token: what is quoted and what stands right before and behind it are
/// one.
pub proof fn quotes_join_what_is_beside_them(a: Seq<char>, t: Seq<char>, b: Seq<char>)
    requires
        forall|k: int| 0 <= k < a.len() ==> is_bare(#[trigger] a[k]),
        forall|k: int| 0 <= k < b.len() ==> is_bare(#[trigger] b[k]),
    ensures
        parse::tokens(a + quoted(t) + b) == seq![a + t + b],
{
    let s = a + quoted(t) + b;
    let n = s.len() as int;
    let q = a.len() as int;
    let e = q + 1 + escaped(t).len();
    assert(stands(s, 0, a));
    assert(s[q] == quoted(t)[0]);
    assert(stands(s, q + 1, escaped(t))) by {
        assert forall|k: int| 0 <= k < escaped(t).len() implies s[q + 1 + k] == #[trigger] escaped(
            t,
        )[k] by {
            assert(quoted(t)[1 + k] == escaped(t)[k]);
        }
    }
    assert(s[e] == quoted(t)[1 + escaped(t).len() as int]);
    escaped_reads_back(s, q + 1, t);
    assert(stands(s, e + 1, b));
    bare_then_rest(s, e + 1, b);
    assert(parse::token_rest(s, n) == (Seq::<char>::empty(), n));
    assert(b + Seq::<char>::empty() =~= b);
    assert(parse::token_rest(s, e + 1) == (b, n));
    assert(parse::token_rest(s, q) == (t + b, n));
    bare_then_rest(s, 0, a);
    assert(a + (t + b) =~= a + t + b);
    assert(parse::token_rest(s, 0) == (a + t + b, n));
    assert(!text::is_space(s[0])) by {
        if a.len() > 0 {
            assert(is_bare(a[0]));
            assert(s[0] == a[0]);
        }
    }
    assert(parse::tokens_from(s, n) == Seq::<Seq<char>>::empty());
    assert(seq![a + t + b] + Seq::<Seq<char>>::empty() =~= seq![a + t + b]);
}

/// Is `c` read as itself outside quotes?
pub open spec fn is_bare(c: char) -> bool {
    c != '"' && c != '\'' && !text::is_space(c)
}

proof fn bare_rest(s: Seq<char>, i: int)
    requires
        0 <= i <= s.len(),
        forall|k: int| 0 <= k < s.len() ==> is_bare(#[trigger] s[k]),
    ensures
        parse::token_rest(s, i) == (s.skip(i), s.len() as int),
    decreases s.len() - i,
{
    if i < s.len() {
        bare_rest(s, i + 1);
        assert(is_bare(s[i]));
        assert(seq![s[i]] + s.skip(i + 1) =~= s.skip(i));
    } else {
        assert(s.skip(i) =~= Seq::empty());
    }
}

/// A word without quotes and white space is its own token.
pub proof fn bare_words_are_tokens(word: Seq<char>)
    requires
        word.len() > 0,
        forall|k: int| 0 <= k < word.len() ==> is_bare(#[trigger] word[k]),
    ensures
        parse::tokens(word) == seq![word],
{
    bare_rest(word, 0);
    assert(is_bare(word[0]));
    assert(word.skip(0) =~= word);
    assert(parse::tokens_from(word, word.len() as int) == Seq::<Seq<char>>::empty());
    assert(seq![word] + Seq::<Seq<char>>::empty() =~= seq![word]);
}

// ---------------------------------------------------------------------------
// Tokens of a part
// ---------------------------------------------------------------------------

/// Is `a` the beginning of `s`?
spec fn begins(s: Seq<char>, a: Seq<char>) -> bool {
    a.len() <= s.len() && forall|k: int| 0 <= k < a.len() ==> s[k] == #[trigger] a[k]
}

/// A piece that closes in the beginning of a line is read the same in both.
proof fn double_quoted_in_part(s: Seq<char>, a: Seq<char>, i: int)
    requires
        begins(s, a),
        0 <= i,
        parse::double_quoted(a, i).1 < a.len() || parse::double_quoted(s, i).1 < a.len(),
    ensures
        parse::double_quoted(a, i) == parse::double_quoted(s, i),
    decreases s.len() - i,
{
    if i < s.len() {
        parse::double_quoted_progress(s, i);
        if i < a.len() {
            parse::double_quoted_progress(a, i);
            assert(s[i] == a[i]);
            if a[i] == '"' {
            } else if a[i] == '\\' && i + 1 < a.len() && (a[i + 1] == '"' || a[i + 1] == '\\') {
                assert(s[i + 1] == a[i + 1]);
                double_quoted_in_part(s, a, i + 2);
            } else {
                if i + 1 < a.len() {
                    assert(s[i + 1] == a[i + 1]);
                } else if i + 2 <= s.len() {
                    parse::double_quoted_progress(s, i + 2);
                    parse::double_quoted_progress(s, i + 1);
                }
                double_quoted_in_part(s, a, i + 1);
            }
        }
    }
}

proof fn single_quoted_in_part(s: Seq<char>, a: Seq<char>, i: int)
    requires
        begins(s, a),
        0 <= i,
        parse::single_quoted(a, i).1 < a.len() || parse::single_quoted(s, i).1 < a.len(),
    ensures
        parse::single_quoted(a, i) == parse::single_quoted(s, i),
    decreases s.len() - i,
{
    if i < s.len() {
        parse::single_quoted_progress(s, i);
        if i < a.len() {
            parse::single_quoted_progress(a, i);
            assert(s[i] == a[i]);
            if a[i] != '\'' {
                single_quoted_in_part(s, a, i + 1);
            }
        }
    }
}

proof fn token_in_part(s: Seq<char>, a: Seq<char>, i: int)
    requires
        begins(s, a),
        0 <= i,
        parse::token_rest(a, i).1 < a.len() || parse::token_rest(s, i).1 < a.len(),
    ensures
        parse::token_rest(a, i) == parse::token_rest(s, i),
    decreases s.len() - i,
{
    if i < s.len() && i < a.len() {
        assert(s[i] == a[i]);
        if text::is_space(a[i]) {
        } else if a[i] == '"' {
            parse::double_quoted_progress(s, i + 1);
            parse::double_quoted_progress(a, i + 1);
            parse::token_rest_progress(s, parse::double_quoted(s, i + 1).1);
            parse::token_rest_progress(a, parse::double_quoted(a, i + 1).1);
            double_quoted_in_part(s, a, i + 1);
            token_in_part(s, a, parse::double_quoted(s, i + 1).1);
        } else if a[i] == '\'' {
            parse::single_quoted_progress(s, i + 1);
            parse::single_quoted_progress(a, i + 1);
            parse::token_rest_progress(s, parse::single_quoted(s, i + 1).1);
            parse::token_rest_progress(a, parse::single_quoted(a, i + 1).1);
            single_quoted_in_part(s, a, i + 1);
            token_in_part(s, a, parse::single_quoted(s, i + 1).1);
        } else {
            token_in_part(s, a, i + 1);
        }
    } else if i < s.len() {
        parse::token_rest_progress(s, i);
    }
}

/// Reading the second of two texts reads the same as reading it alone.
proof fn double_quoted_behind(a: Seq<char>, b: Seq<char>, j: int)
    requires
        0 <= j,
    ensures
        ({
            let r = parse::double_quoted(b, j);
            parse::double_quoted(a + b, a.len() + j) == (r.0, a.len() + r.1)
        }),
    decreases b.len() - j,
{
    if j < b.len() && b[j] != '"' {
        double_quoted_behind(a, b, j + 1);
        if j + 1 < b.len() {
            double_quoted_behind(a, b, j + 2);
        }
    }
}

proof fn single_quoted_behind(a: Seq<char>, b: Seq<char>, j: int)
    requires
        0 <= j,
    ensures
        ({
            let r = parse::single_quoted(b, j);
            parse::single_quoted(a + b, a.len() + j) == (r.0, a.len() + r.1)
        }),
    decreases b.len() - j,
{
    if j < b.len() && b[j] != '\'' {
        single_quoted_behind(a, b, j + 1);
    }
}

proof fn token_behind(a: Seq<char>, b: Seq<char>, j: int)
    requires
        0 <= j <= b.len(),
    ensures
        ({
            let r = parse::token_rest(b, j);
            parse::token_rest(a + b, a.len() + j) == (r.0, a.len() + r.1)
        }),
    decreases b.len() - j,
{
    if j < b.len() && !text::is_space(b[j]) {
        assert((a + b)[a.len() + j] == b[j]);
        if b[j] == '"' {
            parse::double_quoted_progress(b, j + 1);
            double_quoted_behind(a, b, j + 1);
            token_behind(a, b, parse::double_quoted(b, j + 1).1);
        } else if b[j] == '\'' {
            parse::single_quoted_progress(b, j + 1);
            single_quoted_behind(a, b, j + 1);
            token_behind(a, b, parse::single_quoted(b, j + 1).1);
        } else {
            token_behind(a, b, j + 1);
        }
    }
}

proof fn tokens_behind(a: Seq<char>, b: Seq<char>, j: int)
    requires
        0 <= j <= b.len(),
    ensures
        parse::tokens_from(a + b, a.len() + j) == parse::tokens_from(b, j),
    decreases b.len() - j,
{
    if j < b.len() {
        assert((a + b)[a.len() + j] == b[j]);
        if text::is_space(b[j]) {
            tokens_behind(a, b, j + 1);
        } else {
            parse::token_rest_progress(b, j);
            token_behind(a, b, j);
            tokens_behind(a, b, parse::token_rest(b, j).1);
        }
    }
}

proof fn tokens_split_from(a: Seq<char>, b: Seq<char>, i: int)
    requires
        0 <= i <= a.len(),
        parse::partial_from(a, i) == a.len(),
    ensures
        parse::tokens_from(a + b, i) == parse::tokens_from(a, i) + parse::tokens(b),
    decreases a.len() - i,
{
    if i == a.len() {
        tokens_behind(a, b, 0);
        assert(Seq::<Seq<char>>::empty() + parse::tokens(b) =~= parse::tokens(b));
    } else {
        assert((a + b)[i] == a[i]);
        if text::is_space(a[i]) {
            tokens_split_from(a, b, i + 1);
        } else {
            parse::token_rest_progress(a, i);
            let t = parse::token_rest(a, i);
            token_in_part(a + b, a, i);
            tokens_split_from(a, b, t.1);
            assert(seq![t.0] + (parse::tokens_from(a, t.1) + parse::tokens(b)) =~= seq![t.0]
                + parse::tokens_from(a, t.1) + parse::tokens(b));
        }
    }
}

/// Behind a text that ends outside a token another one starts afresh: the tokens of both
/// are those of the one and then those of the other.
pub proof fn finished_text_splits(a: Seq<char>, b: Seq<char>)
    requires
        parse::partial_start(a) == a.len(),
    ensures
        parse::tokens(a + b) == parse::tokens(a) + parse::tokens(b),
{
    tokens_split_from(a, b, 0);
}

/// Does the text hold no quote?
pub open spec fn quote_free(s: Seq<char>) -> bool {
    forall|k: int| 0 <= k < s.len() ==> #[trigger] s[k] != '"' && s[k] != '\''
}

proof fn plain_token(s: Seq<char>, i: int)
    requires
        quote_free(s),
        0 <= i <= s.len(),
    ensures
        ({
            let t = parse::token_rest(s, i);
            &&& i <= t.1 <= s.len()
            &&& t.0 == s.subrange(i, t.1)
            &&& forall|k: int| i <= k < t.1 ==> !text::is_space(#[trigger] s[k])
        }),
    decreases s.len() - i,
{
    if i < s.len() && !text::is_space(s[i]) {
        plain_token(s, i + 1);
        let t = parse::token_rest(s, i + 1);
        assert(seq![s[i]] + s.subrange(i + 1, t.1) =~= s.subrange(i, t.1));
    } else {
        assert(s.subrange(i, i) =~= Seq::empty());
    }
}

proof fn plain_text_is_finished(s: Seq<char>, i: int)
    requires
        quote_free(s),
        text::ends_in_space(s),
        0 <= i <= s.len(),
    ensures
        parse::partial_from(s, i) == s.len(),
    decreases s.len() - i,
{
    if i < s.len() {
        if text::is_space(s[i]) {
            plain_text_is_finished(s, i + 1);
        } else {
            plain_token(s, i);
            parse::token_rest_progress(s, i);
            let end = parse::token_rest(s, i).1;
            if end == s.len() {
                assert(!text::is_space(s[s.len() - 1]));
            }
            plain_text_is_finished(s, end);
        }
    }
}

proof fn tokens_are_words_from(s: Seq<char>, i: int)
    requires
        quote_free(s),
        0 <= i <= s.len(),
    ensures
        parse::tokens_from(s, i) == text::words(s.skip(i)),
    decreases s.len() - i,
{
    let rest = s.skip(i);
    if i == s.len() {
        assert(rest =~= Seq::empty());
    } else if text::is_space(s[i]) {
        tokens_are_words_from(s, i + 1);
        let gap = seq![s[i]];
        assert(gap.drop_last() =~= Seq::empty());
        assert(text::words(gap.drop_last()) =~= Seq::empty());
        assert(text::words(gap) =~= Seq::empty());
        text::words_split(gap, s.skip(i + 1));
        assert(rest =~= gap + s.skip(i + 1));
        assert(Seq::<Seq<char>>::empty() + text::words(s.skip(i + 1)) =~= text::words(
            s.skip(i + 1),
        ));
    } else {
        plain_token(s, i);
        parse::token_rest_progress(s, i);
        let t = parse::token_rest(s, i);
        text::word_alone(t.0);
        if t.1 == s.len() {
            assert(rest =~= t.0);
            assert(parse::tokens_from(s, t.1) =~= Seq::<Seq<char>>::empty());
            assert(seq![t.0] + Seq::<Seq<char>>::empty() =~= seq![t.0]);
        } else {
            tokens_are_words_from(s, t.1 + 1);
            let head = t.0.push(s[t.1]);
            assert(head.drop_last() =~= t.0);
            assert(text::words(head) == seq![t.0]);
            text::words_split(head, s.skip(t.1 + 1));
            assert(rest =~= head + s.skip(t.1 + 1));
            assert(parse::tokens_from(s, t.1) == parse::tokens_from(s, t.1 + 1));
        }
    }
}

/// Text without quotes has its words as tokens, so that none is empty or holds white space;
/// and with a space behind it, it stands for itself whatever follows.
pub proof fn plain_text_splits(a: Seq<char>, b: Seq<char>)
    requires
        quote_free(a),
    ensures
        parse::tokens(a) == text::words(a),
        parse::tokens(a + seq![' '] + b) == parse::tokens(a) + parse::tokens(b),
{
    let spaced = a + seq![' '];
    assert(spaced.drop_last() =~= a);
    assert(a.skip(0) =~= a);
    assert(spaced.skip(0) =~= spaced);
    tokens_are_words_from(a, 0);
    assert(quote_free(spaced)) by {
        assert forall|k: int| 0 <= k < spaced.len() implies #[trigger] spaced[k] != '"' && spaced[k]
            != '\'' by {
            if k < a.len() {
                assert(spaced[k] == a[k]);
            }
        }
    }
    tokens_are_words_from(spaced, 0);
    plain_text_is_finished(spaced, 0);
    finished_text_splits(spaced, b);
}

proof fn plain_partial_from(s: Seq<char>, i: int, m: int)
    requires
        quote_free(s),
        0 <= i <= m <= s.len(),
        m < s.len() ==> m > 0 ==> text::is_space(s[m - 1]),
        forall|k: int| m <= k < s.len() ==> !text::is_space(#[trigger] s[k]),
        m == s.len() ==> m > 0 ==> text::is_space(s[m - 1]),
    ensures
        parse::partial_from(s, i) == m,
    decreases s.len() - i,
{
    if i < s.len() {
        if text::is_space(s[i]) {
            if i == m {
                assert(!text::is_space(s[i]));
            }
            plain_partial_from(s, i + 1, m);
        } else {
            plain_token(s, i);
            parse::token_rest_progress(s, i);
            let end = parse::token_rest(s, i).1;
            if i == m {
                if end < s.len() {
                    plain_token_ends(s, i);
                    assert(!text::is_space(s[end]));
                }
            } else {
                if end >= m {
                    assert(!text::is_space(s[m - 1]));
                }
                plain_partial_from(s, end, m);
            }
        }
    }
}

proof fn plain_token_ends(s: Seq<char>, i: int)
    requires
        quote_free(s),
        0 <= i <= s.len(),
    ensures
        parse::token_rest(s, i).1 < s.len() ==> text::is_space(s[parse::token_rest(s, i).1]),
    decreases s.len() - i,
{
    if i < s.len() && !text::is_space(s[i]) {
        plain_token_ends(s, i + 1);
    }
}

/// What is typed last of a line without quotes is what stands behind its last white space.
pub proof fn plain_partial_start(head: Seq<char>, typed: Seq<char>)
    requires
        quote_free(head + typed),
        spaceless(typed),
        head.len() == 0 || text::is_space(head.last()),
    ensures
        parse::partial_start(head + typed) == head.len(),
{
    let s = head + typed;
    let m = head.len() as int;
    assert forall|k: int| m <= k < s.len() implies !text::is_space(#[trigger] s[k]) by {
        assert(!text::is_space(typed[k - m]));
    }
    if m > 0 {
        assert(s[m - 1] == head.last());
    }
    plain_partial_from(s, 0, m);
}

/// A line without quotes is finished exactly where it ends in white space.
pub proof fn plain_text_partial(s: Seq<char>)
    requires
        quote_free(s),
        s.len() > 0,
    ensures
        parse::partial_start(s) == s.len() <==> text::is_space(s.last()),
{
    let m = last_space(s, s.len() as int);
    plain_partial_from(s, 0, m);
}

// ---------------------------------------------------------------------------
// Opening, closing, recalling
// ---------------------------------------------------------------------------

/// Opening an open console and closing a closed one change nothing; a toggle does the one
/// or the other, and two toggles leave it as open as it was.
pub proof fn opening_and_closing<C>(v: ConsoleView<C>)
    ensures
        v.opened().opened() == v.opened(),
        v.closed().closed() == v.closed(),
        v.opened().open,
        !v.closed().open,
        v.toggled().open == !v.open,
        v.toggled().toggled().open == v.open,
        v.toggled().history == v.history,
        v.toggled().input == v.input,
{
}

/// The console after going back `k` times.
pub open spec fn gone_back<C>(v: ConsoleView<C>, k: nat) -> ConsoleView<C>
    decreases k,
{
    if k == 0 {
        v
    } else {
        gone_back(v, (k - 1) as nat).recalled_prev()
    }
}

/// The console after going forward `k` times.
pub open spec fn gone_forward<C>(v: ConsoleView<C>, k: nat) -> ConsoleView<C>
    decreases k,
{
    if k == 0 {
        v
    } else {
        gone_forward(v, (k - 1) as nat).recalled_next()
    }
}

/// Going back shows the lines from the newest to the oldest and stays there.
pub proof fn recall_walks_backwards<C>(v: ConsoleView<C>, k: nat)
    requires
        v.input_history_pos is None,
        v.input_history.len() > 0,
        k > 0,
    ensures
        ({
            let n = v.input_history.len();
            let pos: int = if k < n {
                n - k
            } else {
                0
            };
            &&& gone_back(v, k).input == v.input_history[pos]
            &&& gone_back(v, k).input_history_pos == Some(pos as nat)
            &&& gone_back(v, k).input_history == v.input_history
        }),
    decreases k,
{
    if k > 1 {
        recall_walks_backwards(v, (k - 1) as nat);
    } else {
        assert(gone_back(v, 0) == v);
    }
}

/// Going forward as often as one went back ends at a blank line.
pub proof fn recall_returns_to_blank<C>(v: ConsoleView<C>, k: nat, j: nat)
    requires
        v.input_history_pos is None,
        0 < k <= v.input_history.len(),
        j <= k,
    ensures
        j < k ==> gone_forward(gone_back(v, k), j).input_history_pos == Some(
            (v.input_history.len() - k + j) as nat,
        ),
        j < k ==> gone_forward(gone_back(v, k), j).input == v.input_history[v.input_history.len()
            - k + j],
        j == k ==> gone_forward(gone_back(v, k), j).input == Seq::<char>::empty(),
        j == k ==> gone_forward(gone_back(v, k), j).input_history_pos is None,
        gone_forward(gone_back(v, k), j).input_history == v.input_history,
    decreases j,
{
    recall_walks_backwards(v, k);
    if j > 0 {
        recall_returns_to_blank(v, k, (j - 1) as nat);
    }
}

// ---------------------------------------------------------------------------
// Completion
// ---------------------------------------------------------------------------

/// The console after pressing Tab `k` times.
pub open spec fn tabbed_times<Ctx, C: Command<Ctx>>(v: ConsoleView<C>, k: nat) -> ConsoleView<C>
    decreases k,
{
    if k == 0 {
        v
    } else {
        tabbed_times::<Ctx, C>(v, (k - 1) as nat).tabbed::<Ctx>()
    }
}

/// Tab cycles: each press takes the next match, and after the last the first again. The
/// match stands where the user was completing, whatever match stood there before.
pub proof fn tab_cycles<Ctx, C: Command<Ctx>>(v: ConsoleView<C>, k: nat)
    requires
        v.wf(),
        v.tab is Some,
    ensures
        ({
            let t = v.tab->0;
            let index = (t.index + k) % t.matches.len();
            let w = tabbed_times::<Ctx, C>(v, k);
            &&& w.tab == Some(TabView { index, ..t })
            &&& k > 0 ==> w.input == completion::applied(t.typed, t.ctx, t.matches[index as int])
        }),
    decreases k,
{
    let t = v.tab->0;
    let n = t.matches.len() as int;
    if k == 0 {
        vstd::arithmetic::div_mod::lemma_small_mod(t.index, t.matches.len());
    } else {
        tab_cycles::<Ctx, C>(v, (k - 1) as nat);
        let before = (t.index + k - 1) as int % n;
        vstd::arithmetic::div_mod::lemma_add_mod_noop_right(1, t.index + k - 1, n);
        assert((before + 1) % n == (t.index + k) as int % n);
    }
}

proof fn in_order_members(s: Seq<Seq<char>>, i: int)
    requires
        0 <= i < sorting::in_order(s, sorting::own_key()).len(),
    ensures
        s.contains(sorting::in_order(s, sorting::own_key())[i]),
{
    broadcast use vstd::seq_lib::group_to_multiset_ensures;

    sorting::in_order_sorts(s, sorting::own_key());
    let r = sorting::in_order(s, sorting::own_key());
    assert(r.contains(r[i]));
    assert(r.to_multiset().count(r[i]) > 0);
    assert(s.to_multiset().count(r[i]) > 0);
}

/// Every completion goes on from what is typed: it begins with the prefix.
pub proof fn completions_extend_the_prefix<Ctx, C: Command<Ctx>>(
    v: ConsoleView<C>,
    ctx: ContextView,
    i: int,
)
    requires
        0 <= i < v.matches::<Ctx>(ctx).len(),
    ensures
        text::has_prefix(v.matches::<Ctx>(ctx)[i], ctx.spec_prefix()),
{
    let all = v.matches::<Ctx>(ctx);
    match ctx {
        ContextView::Command { prefix } => {
            filter_members(v.all_names(), |t: Seq<char>| text::has_prefix(t, prefix), i);
        },
        ContextView::Arg { cmd_name, arg_index, prior, prefix } => {
            text::first_at_is_first(prefix, '=');
            let c = v.registry()[cmd_name];
            if prefix.contains('=') {
                let eq = text::first_at(prefix, '=');
                let key = prefix.take(eq);
                let values = c.spec_arg_value_choices_ctx(arg_index, key, prior);
                let kept = completion::with_prefix(values, prefix.skip(eq + 1));
                let whole = kept.map_values(|x: Seq<char>| key + "="@ + x);
                in_order_members(whole, i);
                let j = choose|j: int| 0 <= j < whole.len() && whole[j] == all[i];
                assert(whole[j] == key + "="@ + kept[j]);
                filter_members(
                    values,
                    |t: Seq<char>| text::has_prefix(t, prefix.skip(eq + 1)),
                    j,
                );
                reveal_strlit("=");
                assert(all[i].take(prefix.len() as int) =~= prefix) by {
                    assert forall|k: int| 0 <= k < prefix.len() implies all[i][k] == prefix[k] by {
                        if k > eq {
                            let tail = prefix.skip(eq + 1);
                            assert(kept[j].take(tail.len() as int)[k - eq - 1] == tail[k - eq
                                - 1]);
                        }
                    }
                }
            } else {
                let choices = c.spec_arg_choices_ctx(arg_index, prior);
                let f = |x: Seq<char>|
                    text::has_prefix(x, prefix) && !completion::key_used(v.input, x);
                in_order_members(choices.filter(f), i);
                let j = choose|j: int|
                    0 <= j < choices.filter(f).len() && choices.filter(f)[j] == all[i];
                filter_members(choices, f, j);
            }
        },
    }
}

proof fn filter_members(s: Seq<Seq<char>>, f: spec_fn(Seq<char>) -> bool, i: int)
    requires
        0 <= i < s.filter(f).len(),
    ensures
        f(s.filter(f)[i]),
{
    broadcast use vstd::seq_lib::group_filter_ensures;

}

proof fn filter_keeps_order(s: Seq<Seq<char>>, f: spec_fn(Seq<char>) -> bool)
    requires
        sorting::is_sorted(s, sorting::own_key()),
    ensures
        sorting::is_sorted(s.filter(f), sorting::own_key()),
        forall|i: int|
            0 <= i < s.filter(f).len() ==> s.contains(#[trigger] s.filter(f)[i]),
    decreases s.len(),
{
    reveal(Seq::filter);
    let key = sorting::own_key();
    if s.len() > 0 {
        let d = s.drop_last();
        assert forall|i: int, j: int| 0 <= i < j < d.len() implies !text::lex_lt(
            key(#[trigger] d[j]),
            key(#[trigger] d[i]),
        ) by {
            assert(!text::lex_lt(key(s[j]), key(s[i])));
        }
        filter_keeps_order(d, f);
        let r = s.filter(f);
        let q = d.filter(f);
        assert forall|i: int| 0 <= i < r.len() implies s.contains(#[trigger] r[i]) by {
            if i < q.len() {
                assert(d.contains(q[i]));
                let m = choose|m: int| 0 <= m < d.len() && d[m] == q[i];
                assert(s[m] == q[i]);
            } else {
                assert(s[s.len() - 1] == s.last());
            }
        }
        assert forall|i: int, j: int| 0 <= i < j < r.len() implies !text::lex_lt(
            key(#[trigger] r[j]),
            key(#[trigger] r[i]),
        ) by {
            if j < q.len() {
                assert(!text::lex_lt(key(q[j]), key(q[i])));
            } else {
                assert(d.contains(q[i]));
                let m = choose|m: int| 0 <= m < d.len() && d[m] == q[i];
                assert(!text::lex_lt(key(s[s.len() - 1]), key(s[m])));
            }
        }
    }
}

/// Completions come in order.
pub proof fn completions_are_sorted<Ctx, C: Command<Ctx>>(v: ConsoleView<C>, ctx: ContextView)
    ensures
        sorting::is_sorted(v.matches::<Ctx>(ctx), sorting::own_key()),
{
    let key = sorting::own_key();
    match ctx {
        ContextView::Command { prefix } => {
            let names = v.commands.map_values(|p: (Seq<char>, C)| p.0)
                + builtin::all_builtins().map_values(
                |b: Builtin| b.spec_name(),
            );
            sorting::in_order_sorts(names, key);
            filter_keeps_order(v.all_names(), |t: Seq<char>| text::has_prefix(t, prefix));
        },
        ContextView::Arg { cmd_name, arg_index, prior, prefix } => {
            let c = v.registry()[cmd_name];
            let eq = text::first_at(prefix, '=');
            let k = prefix.take(eq);
            let values = c.spec_arg_value_choices_ctx(arg_index, k, prior);
            sorting::in_order_sorts(
                completion::with_prefix(values, prefix.skip(eq + 1)).map_values(
                    |x: Seq<char>| k + "="@ + x,
                ),
                key,
            );
            sorting::in_order_sorts(
                c.spec_arg_choices_ctx(arg_index, prior).filter(
                    |x: Seq<char>|
                        text::has_prefix(x, prefix) && !completion::key_used(v.input, x),
                ),
                key,
            );
        },
    }
}

/// What stands before the token that is being typed holds the finished tokens.
proof fn head_tokens_from(s: Seq<char>, i: int, p: int)
    requires
        0 <= i <= s.len(),
        p == parse::partial_from(s, i),
    ensures
        i <= p <= s.len(),
        parse::partial_from(s.take(p), i) == p,
        parse::tokens_from(s, i) == parse::tokens_from(s.take(p), i) + (if p < s.len() {
            seq![parse::token_rest(s, p).0]
        } else {
            seq![]
        }),
    decreases s.len() - i,
{
    let a = s.take(p);
    parse::partial_from_bounds(s, i);
    let last = if p < s.len() {
        seq![parse::token_rest(s, p).0]
    } else {
        seq![]
    };
    if i == s.len() {
        assert(Seq::<Seq<char>>::empty() + last =~= Seq::<Seq<char>>::empty());
    } else if text::is_space(s[i]) {
        parse::partial_from_bounds(s, i + 1);
        assert(a[i] == s[i]);
        head_tokens_from(s, i + 1, p);
    } else {
        parse::token_rest_progress(s, i);
        let t = parse::token_rest(s, i);
        if t.1 >= s.len() {
            assert(parse::tokens_from(s, t.1) =~= Seq::<Seq<char>>::empty());
            assert(Seq::<Seq<char>>::empty() + last =~= seq![t.0] + Seq::<Seq<char>>::empty());
        } else {
            head_tokens_from(s, t.1, p);
            assert(t.1 < p);
            assert(a[i] == s[i]);
            token_in_part(s, a, i);
            assert(seq![t.0] + (parse::tokens_from(a, t.1) + last) =~= seq![t.0]
                + parse::tokens_from(a, t.1) + last);
        }
    }
}

proof fn head_tokens(input: Seq<char>)
    ensures
        ({
            let p = parse::partial_start(input);
            let head = input.take(p);
            &&& 0 <= p <= input.len()
            &&& parse::partial_start(head) == head.len()
            &&& p == input.len() ==> parse::tokens(head) == parse::tokens(input)
            &&& p < input.len() ==> parse::tokens(input) == parse::tokens(head).push(
                parse::token_rest(input, p).0,
            )
        }),
{
    let p = parse::partial_start(input);
    head_tokens_from(input, 0, p);
    let head = parse::tokens(input.take(p));
    if p < input.len() {
        assert(head + seq![parse::token_rest(input, p).0] =~= head.push(
            parse::token_rest(input, p).0,
        ));
    } else {
        assert(input.take(p) =~= input);
    }
}

/// Completing an argument leaves everything before it as typed: the line then holds the
/// command, the finished arguments, and the choice. The half-typed token is gone, with its
/// opening quote.
pub proof fn completion_keeps_what_is_before(input: Seq<char>, choice: Seq<char>)
    requires
        completion::context_of(input) is Some,
        completion::context_of(input)->0 is Arg,
    ensures
        ({
            let ctx = completion::context_of(input)->0;
            let r = completion::applied(input, ctx, choice);
            &&& text::has_prefix(r, input.take(parse::partial_start(input)))
            &&& parse::tokens(r) == seq![ctx->cmd_name] + ctx->prior + parse::tokens(choice)
        }),
{
    let ctx = completion::context_of(input)->0;
    let p = parse::partial_start(input);
    let head = input.take(p);
    let toks = parse::tokens(input);
    head_tokens(input);
    finished_text_splits(head, choice);
    assert((head + choice).take(head.len() as int) =~= head);
    if p == input.len() {
        assert(parse::tokens(head) =~= seq![ctx->cmd_name] + ctx->prior);
    } else {
        assert(toks.drop_last() =~= parse::tokens(head));
        assert(parse::tokens(head) =~= seq![ctx->cmd_name] + ctx->prior);
    }
}

/// What Tab leaves is what the preview promised: what is typed, without its quotes, and the
/// preview behind it stand where the user was completing. A token typed without quotes is
/// only added to.
pub proof fn preview_is_what_tab_adds<Ctx, C: Command<Ctx>>(v: ConsoleView<C>)
    requires
        v.tab is None,
        v.preview::<Ctx>() is Some,
    ensures
        completion::context_of(v.input) is Some,
        ({
            let ctx = completion::context_of(v.input)->0;
            let p = parse::partial_start(v.input);
            let head = if ctx is Arg {
                v.input.take(p)
            } else {
                Seq::empty()
            };
            &&& v.tabbed::<Ctx>().input == head + ctx.spec_prefix() + v.preview::<Ctx>()->0
            &&& quote_free(v.input.skip(p)) && (ctx is Arg || p == 0) ==> v.tabbed::<Ctx>().input
                == v.input + v.preview::<Ctx>()->0
        }),
{
    let ctx = completion::context_of(v.input)->0;
    let matches = v.matches::<Ctx>(ctx);
    let prefix = ctx.spec_prefix();
    let preview = v.preview::<Ctx>()->0;
    completions_extend_the_prefix::<Ctx, C>(v, ctx, 0);
    assert(matches[0] =~= matches[0].take(prefix.len() as int) + matches[0].skip(
        prefix.len() as int,
    ));
    assert(matches[0] == prefix + preview);
    let p = parse::partial_start(v.input);
    head_tokens(v.input);
    let head = v.input.take(p);
    let tail = v.input.skip(p);
    assert(head + (prefix + preview) =~= head + prefix + preview);
    assert(Seq::<char>::empty() + prefix + preview =~= prefix + preview);
    if quote_free(tail) && (ctx is Arg || p == 0) {
        assert(head + tail =~= v.input);
        parse::partial_from_bounds(v.input, 0);
        if p < v.input.len() {
            token_behind(head, tail, 0);
            plain_token(tail, 0);
            assert(tail.subrange(0, tail.len() as int) =~= tail);
            assert(prefix == tail);
        } else {
            assert(tail =~= Seq::empty());
            assert(prefix =~= tail);
        }
        assert(head + prefix =~= v.input);
        if p == 0 {
            assert(head =~= Seq::empty());
            assert(prefix =~= v.input);
        }
    }
}

/// A filter keeps what it lets through, each as often as it is there.
pub proof fn filter_counts(s: Seq<Seq<char>>, f: spec_fn(Seq<char>) -> bool, x: Seq<char>)
    ensures
        s.filter(f).to_multiset().count(x) == (if f(x) {
            s.to_multiset().count(x)
        } else {
            0
        }),
    decreases s.len(),
{
    broadcast use vstd::seq_lib::group_to_multiset_ensures;

    reveal(Seq::filter);
    if s.len() > 0 {
        filter_counts(s.drop_last(), f, x);
        assert(s =~= s.drop_last().push(s.last()));
    }
}

proof fn map_counts(s: Seq<Seq<char>>, g: spec_fn(Seq<char>) -> Seq<char>, x: Seq<char>)
    requires
        forall|a: Seq<char>, b: Seq<char>| #[trigger] g(a) == #[trigger] g(b) ==> a == b,
    ensures
        s.map_values(g).to_multiset().count(g(x)) == s.to_multiset().count(x),
    decreases s.len(),
{
    broadcast use vstd::seq_lib::group_to_multiset_ensures;

    let m = s.map_values(g);
    if s.len() > 0 {
        let d = s.drop_last();
        map_counts(d, g, x);
        assert(s =~= d.push(s.last()));
        assert(m =~= d.map_values(g).push(g(s.last())));
    } else {
        assert(m =~= Seq::empty());
    }
}

/// How often `t` is among `all`.
pub open spec fn times(all: Seq<Seq<char>>, t: Seq<char>) -> nat {
    all.to_multiset().count(t)
}

/// Are these the completions of `key=typed`? They are `key=value` for the declared values
/// that begin with `typed`, each as often as it is declared, and nothing else.
pub open spec fn offers_values(
    offered: Seq<Seq<char>>,
    declared: Seq<Seq<char>>,
    key: Seq<char>,
    typed: Seq<char>,
) -> bool {
    &&& forall|v: Seq<char>| #[trigger]
        times(offered, key + seq!['='] + v) == (if typed.is_prefix_of(v) {
            times(declared, v)
        } else {
            0
        })
    &&& forall|t: Seq<char>|
        times(offered, t) > 0 ==> exists|v: Seq<char>| t == #[trigger] (key + seq!['='] + v)
}

/// Does a word that begins with `part` and is finished, by white space behind it, stand in
/// the line?
pub open spec fn is_given(line: Seq<char>, part: Seq<char>) -> bool {
    exists|i: int, k: int|
        {
            &&& 0 <= i && i + part.len() <= k < line.len()
            &&& i == 0 || text::is_space(line[i - 1])
            &&& #[trigger] line.subrange(i, i + part.len()) == part
            &&& text::is_space(#[trigger] line[k])
        }
}

/// Are these the completions of `typed`, an argument that is not past an `=`? They are the
/// declared choices that begin with it, each as often as it is declared, but for those whose
/// key the line already gives.
pub open spec fn offers_choices(
    offered: Seq<Seq<char>>,
    declared: Seq<Seq<char>>,
    typed: Seq<char>,
    line: Seq<char>,
) -> bool {
    &&& forall|c: Seq<char>|
        !c.contains('=') ==> #[trigger] times(offered, c) == (if typed.is_prefix_of(c) {
            times(declared, c)
        } else {
            0
        })
    &&& forall|key: Seq<char>, rest: Seq<char>|
        !key.contains('=') && spaceless(key) ==> #[trigger] times(offered, key + seq!['='] + rest)
            == (if typed.is_prefix_of(key + seq!['='] + rest) && !is_given(line, key + seq!['=']) {
            times(declared, key + seq!['='] + rest)
        } else {
            0
        })
}

/// Does the text hold no white space?
pub open spec fn spaceless(s: Seq<char>) -> bool {
    forall|k: int| 0 <= k < s.len() ==> !text::is_space(#[trigger] s[k])
}

/// To begin with a text is to have it as a prefix.
pub proof fn prefix_either_way(s: Seq<char>, p: Seq<char>)
    ensures
        text::has_prefix(s, p) <==> p.is_prefix_of(s),
{
    if p.len() <= s.len() {
        assert(s.take(p.len() as int) =~= s.subrange(0, p.len() as int));
    }
}

proof fn key_of_pair(key: Seq<char>, rest: Seq<char>)
    requires
        !key.contains('='),
    ensures
        (key + seq!['='] + rest).contains('='),
        text::first_at(key + seq!['='] + rest, '=') == key.len(),
        completion::key_part(key + seq!['='] + rest) == key + seq!['='],
{
    let s = key + seq!['='] + rest;
    text::first_at_is_first(s, '=');
    assert(s[key.len() as int] == '=');
    assert forall|j: int| 0 <= j < key.len() implies s[j] != '=' by {
        assert(key.contains(key[j]));
    }
    assert(s.take(key.len() as int + 1) =~= key + seq!['=']);
}

/// Completion of a value is complete: the texts offered for `key=typed` are `key=value` for
/// every declared value of that key that begins with `typed`, each as often as it is
/// declared, and they are no others.
pub proof fn value_completion_is_complete(key: Seq<char>, typed: Seq<char>)
    requires
        !key.contains('='),
    ensures
        forall|values: &[&'static str], prefix: &str, r: Vec<String>| #[trigger]
            call_ensures(completion::complete_value, (values, prefix), r) && prefix@ == key
                + seq!['='] + typed ==> offers_values(
                text::views(r@),
                text::str_views(values@),
                key,
                typed,
            ),
{
    assert forall|values: &[&'static str], prefix: &str, r: Vec<String>| #[trigger]
        call_ensures(completion::complete_value, (values, prefix), r) && prefix@ == key + seq!['=']
            + typed implies offers_values(
        text::views(r@),
        text::str_views(values@),
        key,
        typed,
    ) by {
        values_are_offered(text::str_views(values@), prefix@, key, typed);
    }
}

proof fn values_are_offered(
    declared: Seq<Seq<char>>,
    prefix: Seq<char>,
    key: Seq<char>,
    typed: Seq<char>,
)
    requires
        !key.contains('='),
        prefix == key + seq!['='] + typed,
    ensures
        offers_values(completion::value_matches(declared, prefix), declared, key, typed),
{
    broadcast use vstd::seq_lib::group_to_multiset_ensures;

    reveal_strlit("=");
    assert("="@ =~= seq!['=']);
    key_of_pair(key, typed);
    let eq = text::first_at(prefix, '=');
    assert(prefix.take(eq) =~= key);
    assert(prefix.skip(eq + 1) =~= typed);
    let f = |t: Seq<char>| text::has_prefix(t, typed);
    let g = |v: Seq<char>| key + "="@ + v;
    let kept = declared.filter(f);
    let whole = kept.map_values(g);
    sorting::in_order_sorts(whole, sorting::own_key());
    let offered = completion::value_matches(declared, prefix);
    assert(offered == sorting::in_order(whole, sorting::own_key()));
    assert forall|a: Seq<char>, b: Seq<char>| #[trigger] g(a) == #[trigger] g(b) implies a == b by {
        assert(g(a).skip(key.len() as int + 1) =~= a);
        assert(g(b).skip(key.len() as int + 1) =~= b);
    }
    assert forall|v: Seq<char>| #[trigger]
        times(offered, key + seq!['='] + v) == (if typed.is_prefix_of(v) {
            times(declared, v)
        } else {
            0
        }) by {
        map_counts(kept, g, v);
        filter_counts(declared, f, v);
        prefix_either_way(v, typed);
        assert(g(v) == key + seq!['='] + v);
    }
    assert forall|t: Seq<char>| times(offered, t) > 0 implies exists|v: Seq<char>|
        t == #[trigger] (key + seq!['='] + v) by {
        assert(whole.to_multiset().count(t) > 0);
        assert(whole.contains(t));
        let j = choose|j: int| 0 <= j < whole.len() && whole[j] == t;
        assert(t == key + seq!['='] + kept[j]);
    }
}

/// The finished words are those of the line up to its last white space.
proof fn finished_words_end_in_space(line: Seq<char>) -> (m: int)
    ensures
        0 <= m <= line.len(),
        m == 0 || text::is_space(line[m - 1]),
        forall|k: int| m <= k < line.len() ==> !text::is_space(#[trigger] line[k]),
        completion::finished_words(line) == text::words(line.take(m)),
{
    let m = last_space(line, line.len() as int);
    let head = line.take(m);
    let tail = line.skip(m);
    assert(head + tail =~= line);
    if m > 0 {
        assert(head.last() == line[m - 1]);
    }
    text::words_split(head, tail);
    if tail.len() > 0 {
        assert forall|k: int| 0 <= k < tail.len() implies !text::is_space(#[trigger] tail[k]) by {
            assert(tail[k] == line[m + k]);
        }
        text::word_alone(tail);
        assert(line.last() == tail.last());
        assert(!text::is_space(tail[tail.len() - 1]));
        assert((text::words(head) + seq![tail]).drop_last() =~= text::words(head));
    } else {
        assert(tail =~= Seq::empty());
        assert(head =~= line);
    }
    m
}

/// A word of a text begins with what stands at its place.
proof fn word_at(head: Seq<char>, i: int, part: Seq<char>) -> (n: int)
    requires
        part.len() > 0,
        spaceless(part),
        0 <= i,
        i + part.len() <= head.len(),
        i == 0 || text::is_space(head[i - 1]),
        head.subrange(i, i + part.len()) == part,
    ensures
        0 <= n < text::words(head).len(),
        text::has_prefix(text::words(head)[n], part),
{
    let rest = head.skip(i);
    assert forall|q: int| 0 <= q < part.len() implies !text::is_space(#[trigger] rest[q]) by {
        assert(head.subrange(i, i + part.len())[q] == part[q]);
    }
    let e = text::first_run_ends(rest, part.len() as int);
    assert(text::is_run(head, i, i + e)) by {
        assert forall|q: int| i <= q < i + e implies !text::is_space(#[trigger] head[q]) by {
            assert(!text::is_space(rest[q - i]));
        }
        if i + e < head.len() {
            assert(head[i + e] == rest[e]);
        }
    }
    let w = head.subrange(i, i + e);
    text::words_are_runs(head);
    assert(text::words(head).contains(w));
    let n = choose|n: int| 0 <= n < text::words(head).len() && text::words(head)[n] == w;
    assert(w.take(part.len() as int) =~= part) by {
        assert forall|q: int| 0 <= q < part.len() implies w[q] == part[q] by {
            assert(head.subrange(i, i + part.len())[q] == part[q]);
        }
    }
    n
}

/// What a word begins with stands at its place.
proof fn place_of_word(head: Seq<char>, n: int, part: Seq<char>) -> (i: int)
    requires
        0 <= n < text::words(head).len(),
        text::has_prefix(text::words(head)[n], part),
        head.len() > 0 ==> text::is_space(head.last()),
    ensures
        0 <= i,
        i + part.len() < head.len(),
        i == 0 || text::is_space(head[i - 1]),
        head.subrange(i, i + part.len()) == part,
{
    text::words_are_runs(head);
    let w = text::words(head)[n];
    let (i, j) = choose|i: int, j: int| #[trigger]
        text::is_run(head, i, j) && text::words(head)[n] == head.subrange(i, j);
    assert(w == head.subrange(i, j));
    assert(j < head.len()) by {
        if j == head.len() {
            assert(!text::is_space(head[j - 1]));
        }
    }
    assert(head.subrange(i, i + part.len()) =~= part) by {
        assert forall|q: int| 0 <= q < part.len() implies head[i + q] == part[q] by {
            assert(w.take(part.len() as int)[q] == part[q]);
            assert(w[q] == head[i + q]);
        }
    }
    i
}

/// A finished word begins with `part` exactly where the line gives it.
proof fn finished_words_are_given(line: Seq<char>, part: Seq<char>)
    requires
        part.len() > 0,
        spaceless(part),
    ensures
        is_given(line, part) <==> exists|n: int|
            0 <= n < completion::finished_words(line).len() && text::has_prefix(
                #[trigger] completion::finished_words(line)[n],
                part,
            ),
{
    let done = completion::finished_words(line);
    let m = finished_words_end_in_space(line);
    let head = line.take(m);
    if is_given(line, part) {
        let (i, k) = choose|i: int, k: int|
            {
                &&& 0 <= i && i + part.len() <= k < line.len()
                &&& i == 0 || text::is_space(line[i - 1])
                &&& #[trigger] line.subrange(i, i + part.len()) == part
                &&& text::is_space(#[trigger] line[k])
            };
        assert(k < m);
        assert(head.subrange(i, i + part.len()) =~= line.subrange(i, i + part.len()));
        let n = word_at(head, i, part);
        assert(text::has_prefix(done[n], part));
    }
    if exists|n: int| 0 <= n < done.len() && text::has_prefix(#[trigger] done[n], part) {
        let n = choose|n: int| 0 <= n < done.len() && text::has_prefix(#[trigger] done[n], part);
        if m > 0 {
            assert(head.last() == line[m - 1]);
        }
        let i = place_of_word(head, n, part);
        assert(line.subrange(i, i + part.len()) =~= head.subrange(i, i + part.len()));
        assert(text::is_space(line[m - 1]));
    }
}

/// Behind the last white space among the first `n` characters.
proof fn last_space(s: Seq<char>, n: int) -> (m: int)
    requires
        0 <= n <= s.len(),
    ensures
        0 <= m <= n,
        m == 0 || text::is_space(s[m - 1]),
        forall|k: int| m <= k < n ==> !text::is_space(#[trigger] s[k]),
    decreases n,
{
    if n == 0 || text::is_space(s[n - 1]) {
        n
    } else {
        last_space(s, n - 1)
    }
}

proof fn key_is_used_where_given(line: Seq<char>, key: Seq<char>, rest: Seq<char>)
    requires
        !key.contains('='),
        spaceless(key),
    ensures
        completion::key_used(line, key + seq!['='] + rest) <==> is_given(line, key + seq!['=']),
{
    let c = key + seq!['='] + rest;
    let part = key + seq!['='];
    let done = completion::finished_words(line);
    key_of_pair(key, rest);
    assert(spaceless(part)) by {
        assert forall|k: int| 0 <= k < part.len() implies !text::is_space(#[trigger] part[k]) by {
            if k < key.len() {
                assert(part[k] == key[k]);
            }
        }
    }
    finished_words_are_given(line, part);
    assert forall|n: int| 0 <= n < done.len() implies (text::has_prefix(#[trigger] done[n], part)
        <==> done[n].contains('=') && completion::key_part(done[n]) == part) by {
        let w = done[n];
        text::first_at_is_first(w, '=');
        if text::has_prefix(w, part) {
            let tail = w.skip(part.len() as int);
            assert(w =~= key + seq!['='] + tail) by {
                assert forall|k: int| 0 <= k < part.len() implies w[k] == part[k] by {
                    assert(w.take(part.len() as int)[k] == part[k]);
                }
            }
            key_of_pair(key, tail);
        }
    }
}

/// Completion of a choice is complete: every declared choice that begins with what is typed,
/// and whose key the line does not give yet, is offered as often as it is declared, and no
/// other is.
pub proof fn choice_completion_is_complete()
    ensures
        forall|choices: &[&'static str], prefix: &str, input: &str, r: Vec<String>| #[trigger]
            call_ensures(completion::complete_choice, (choices, prefix, input), r)
                ==> offers_choices(
                text::views(r@),
                text::str_views(choices@),
                prefix@,
                input@,
            ),
{
    assert forall|choices: &[&'static str], prefix: &str, input: &str, r: Vec<String>| #[trigger]
        call_ensures(completion::complete_choice, (choices, prefix, input), r) implies offers_choices(
        text::views(r@),
        text::str_views(choices@),
        prefix@,
        input@,
    ) by {
        choices_are_offered(text::str_views(choices@), prefix@, input@);
    }
}

proof fn choices_are_offered(declared: Seq<Seq<char>>, typed: Seq<char>, line: Seq<char>)
    ensures
        offers_choices(
            completion::choice_matches(declared, typed, line),
            declared,
            typed,
            line,
        ),
{
    let f = |c: Seq<char>| text::has_prefix(c, typed) && !completion::key_used(line, c);
    let offered = completion::choice_matches(declared, typed, line);
    assert(offered == sorting::in_order(declared.filter(f), sorting::own_key()));
    sorting::in_order_sorts(declared.filter(f), sorting::own_key());
    assert forall|c: Seq<char>| !c.contains('=') implies #[trigger] times(offered, c) == (
    if typed.is_prefix_of(c) {
        times(declared, c)
    } else {
        0
    }) by {
        filter_counts(declared, f, c);
        prefix_either_way(c, typed);
    }
    assert forall|key: Seq<char>, rest: Seq<char>| !key.contains('=') && spaceless(key) implies
        #[trigger] times(offered, key + seq!['='] + rest) == (if typed.is_prefix_of(
        key + seq!['='] + rest,
    ) && !is_given(line, key + seq!['=']) {
        times(declared, key + seq!['='] + rest)
    } else {
        0
    }) by {
        let c = key + seq!['='] + rest;
        filter_counts(declared, f, c);
        prefix_either_way(c, typed);
        key_is_used_where_given(line, key, rest);
    }
}

proof fn name_counts<C>(commands: Seq<(Seq<char>, C)>, name: Seq<char>)
    requires
        assoc::ascending(commands),
    ensures
        times(commands.map_values(|p: (Seq<char>, C)| p.0), name) == (if assoc::as_map(
            commands,
        ).dom().contains(name) {
            1nat
        } else {
            0nat
        }),
    decreases commands.len(),
{
    broadcast use vstd::seq_lib::group_to_multiset_ensures;

    let g = |p: (Seq<char>, C)| p.0;
    let all = commands.map_values(g);
    assert(all.no_duplicates()) by {
        assert forall|i: int, j: int| 0 <= i < all.len() && 0 <= j < all.len() && i != j implies
            all[i] != all[j] by {
            if i < j {
                assert(text::lex_lt(commands[i].0, commands[j].0));
            } else {
                assert(text::lex_lt(commands[j].0, commands[i].0));
            }
            text::lex_irreflexive(all[i]);
        }
    }
    all.lemma_multiset_has_no_duplicates();
    if assoc::as_map(commands).dom().contains(name) {
        assert(assoc::has_key(commands, name));
        let i = assoc::place_of(commands, name);
        assert(all[i] == name);
        assert(all.contains(name));
    } else if all.contains(name) {
        let i = choose|i: int| 0 <= i < all.len() && all[i] == name;
        assert(commands[i].0 == name);
    }
}

/// How often a name is that of a command that the console brings along.
pub open spec fn own_commands(name: Seq<char>) -> nat {
    if name == "help"@ || name == "clear"@ || name == "detach"@ || name == "dock"@ {
        1
    } else {
        0
    }
}

/// What Tab offers is complete. For a command name: each registered one and each that the
/// console brings along that begins with what is typed, and no other. For an argument of a
/// registered command: the values or choices that the command declares there. For one of
/// another command: nothing.
pub proof fn console_completion_is_complete<Ctx, C: Command<Ctx>>()
    ensures
        forall|console: &Console<Ctx, C>, ctx: &CompletionContext, r: Vec<String>| #[trigger]
            call_ensures(Console::<Ctx, C>::completion_matches, (console, ctx), r) && console.wf()
                ==> offers_in_context::<Ctx, C>(console@, ctx@, text::views(r@)),
{
    assert forall|console: &Console<Ctx, C>, ctx: &CompletionContext, r: Vec<String>| #[trigger]
        call_ensures(Console::<Ctx, C>::completion_matches, (console, ctx), r)
            && console.wf() implies offers_in_context::<Ctx, C>(
        console@,
        ctx@,
        text::views(r@),
    ) by {
        matches_are_offered::<Ctx, C>(console@, ctx@);
    }
}

/// Are these the completions in this place?
pub open spec fn offers_in_context<Ctx, C: Command<Ctx>>(
    v: ConsoleView<C>,
    ctx: ContextView,
    offered: Seq<Seq<char>>,
) -> bool {
    match ctx {
        ContextView::Command { prefix } => forall|name: Seq<char>| #[trigger]
            times(offered, name) == (if prefix.is_prefix_of(name) {
                own_commands(name) + (if v.registry().dom().contains(name) {
                    1nat
                } else {
                    0nat
                })
            } else {
                0nat
            }),
        ContextView::Arg { cmd_name, arg_index, prior, prefix } => {
            &&& !v.registry().dom().contains(cmd_name) ==> offered.len() == 0
            &&& v.registry().dom().contains(cmd_name) && !prefix.contains('=') ==> offers_choices(
                offered,
                v.registry()[cmd_name].spec_arg_choices_ctx(arg_index, prior),
                prefix,
                v.input,
            )
            &&& forall|key: Seq<char>, typed: Seq<char>|
                v.registry().dom().contains(cmd_name) && !key.contains('=') && prefix
                    == #[trigger] (key + seq!['='] + typed) ==> offers_values(
                    offered,
                    v.registry()[cmd_name].spec_arg_value_choices_ctx(arg_index, key, prior),
                    key,
                    typed,
                )
        },
    }
}

proof fn matches_are_offered<Ctx, C: Command<Ctx>>(v: ConsoleView<C>, ctx: ContextView)
    requires
        v.wf(),
    ensures
        offers_in_context::<Ctx, C>(v, ctx, v.matches::<Ctx>(ctx)),
{
    let offered = v.matches::<Ctx>(ctx);
    match ctx {
        ContextView::Command { prefix } => {
            let registered = v.commands.map_values(|p: (Seq<char>, C)| p.0);
            let own = builtin::all_builtins().map_values(|b: Builtin| b.spec_name());
            let f = |t: Seq<char>| text::has_prefix(t, prefix);
            sorting::in_order_sorts(registered + own, sorting::own_key());
            assert forall|name: Seq<char>| #[trigger]
                times(offered, name) == (if prefix.is_prefix_of(name) {
                    own_commands(name) + (if v.registry().dom().contains(name) {
                        1nat
                    } else {
                        0nat
                    })
                } else {
                    0nat
                }) by {
                filter_counts(v.all_names(), f, name);
                prefix_either_way(name, prefix);
                name_counts(v.commands, name);
                vstd::seq_lib::lemma_multiset_commutative(registered, own);
                own_counts(own, name);
            }
        },
        ContextView::Arg { cmd_name, arg_index, prior, prefix } => {
            if v.registry().dom().contains(cmd_name) {
                let c = v.registry()[cmd_name];
                if prefix.contains('=') {
                    assert forall|key: Seq<char>, typed: Seq<char>|
                        !key.contains('=') && prefix == #[trigger] (key + seq!['=']
                            + typed) implies offers_values(
                        offered,
                        c.spec_arg_value_choices_ctx(arg_index, key, prior),
                        key,
                        typed,
                    ) by {
                        key_of_pair(key, typed);
                        assert(prefix.take(key.len() as int) =~= key);
                        values_are_offered(
                            c.spec_arg_value_choices_ctx(arg_index, key, prior),
                            prefix,
                            key,
                            typed,
                        );
                    }
                } else {
                    choices_are_offered(c.spec_arg_choices_ctx(arg_index, prior), prefix, v.input);
                    assert forall|key: Seq<char>, typed: Seq<char>|
                        !key.contains('=') implies prefix != #[trigger] (key + seq!['=']
                        + typed) by {
                        key_of_pair(key, typed);
                    }
                }
            }
        },
    }
}

/// The names of all commands are those of the registered ones and the console's own, in order.
pub proof fn names_are_those_of_all_commands<C>(v: ConsoleView<C>)
    requires
        v.wf(),
    ensures
        forall|name: Seq<char>| #[trigger]
            times(v.all_names(), name) == own_commands(name) + (if v.registry().dom().contains(name) {
                1nat
            } else {
                0nat
            }),
        forall|i: int, j: int|
            0 <= i < j < v.all_names().len() ==> !text::lex_lt(
                #[trigger] v.all_names()[j],
                #[trigger] v.all_names()[i],
            ),
{
    let key = sorting::own_key();
    let registered = v.commands.map_values(|p: (Seq<char>, C)| p.0);
    let own = builtin::all_builtins().map_values(|b: Builtin| b.spec_name());
    sorting::in_order_sorts(registered + own, key);
    assert forall|name: Seq<char>| #[trigger]
        times(v.all_names(), name) == own_commands(name) + (if v.registry().dom().contains(name) {
            1nat
        } else {
            0nat
        }) by {
        name_counts(v.commands, name);
        vstd::seq_lib::lemma_multiset_commutative(registered, own);
        own_counts(own, name);
    }
    let all = v.all_names();
    assert forall|i: int, j: int| 0 <= i < j < all.len() implies !text::lex_lt(
        #[trigger] all[j],
        #[trigger] all[i],
    ) by {
        assert(!text::lex_lt(key(all[j]), key(all[i])));
    }
}

proof fn own_counts(own: Seq<Seq<char>>, name: Seq<char>)
    requires
        own == builtin::all_builtins().map_values(|b: Builtin| b.spec_name()),
    ensures
        times(own, name) == own_commands(name),
{
    broadcast use vstd::seq_lib::group_to_multiset_ensures;

    builtin::builtin_name_round_trips(Builtin::Help);
    builtin::builtin_name_round_trips(Builtin::Clear);
    builtin::builtin_name_round_trips(Builtin::Detach);
    builtin::builtin_name_round_trips(Builtin::Dock);
    let none = Seq::<Seq<char>>::empty();
    assert(own =~= none.push("clear"@).push("detach"@).push("dock"@).push("help"@));
}

// ---------------------------------------------------------------------------
// Execution
// ---------------------------------------------------------------------------

proof fn remembered_is_bounded<C>(v: ConsoleView<C>, line: Seq<char>)
    requires
        v.wf(),
        model::is_entered(line),
    ensures
        forall|i: int|
            0 <= i < v.remembered(line).len() ==> model::is_entered(
                #[trigger] v.remembered(line)[i],
            ),
        v.remembered(line).len() <= model::MAX_INPUT_HISTORY,
        model::no_repeats(v.remembered(line)),
        v.remembered(line).len() > 0,
        v.remembered(line).last() == line,
{
    let h = v.input_history;
    if !(h.len() > 0 && h.last() == line) {
        let all = h.push(line);
        let r = v.remembered(line);
        assert forall|i: int| 0 <= i < r.len() implies model::is_entered(#[trigger] r[i]) by {
            let d = all.len() - r.len();
            assert(r[i] == all[i + d]);
            if i + d < h.len() {
                assert(model::is_entered(h[i + d]));
            }
        }
        assert forall|i: int| 0 <= i < r.len() - 1 implies #[trigger] r[i] != r[i + 1] by {
            let d = all.len() - r.len();
            assert(r[i] == all[i + d]);
            assert(r[i + 1] == all[i + 1 + d]);
            if i + d < h.len() - 1 {
                assert(h[i + d] != h[i + d + 1]);
            }
        }
    }
}

/// Whatever is executed, the console stays sound: both logs keep their caps, no line is
/// remembered twice in a row, none that is remembered is blank or has white space at its
/// ends, and nothing is left half completed.
pub proof fn execution_keeps_the_console_sound<Ctx, C: Command<Ctx>>(
    v: ConsoleView<C>,
    line: Seq<char>,
    before: Ctx,
    w: ConsoleView<C>,
    after: Ctx,
)
    requires
        v.wf(),
        model::executed::<Ctx, C>(v, line, before, w, after),
    ensures
        w.wf(),
        text::trimmed(line).len() > 0 ==> w.input_history == v.remembered(text::trimmed(line))
            && w.input_history.last() == text::trimmed(line) && w.tab is None
            && w.input_history_pos is None,
        w.open == v.open,
        w.binds == v.binds,
        w.input == v.input,
{
    let typed = text::trimmed(line);
    if typed.len() > 0 {
        text::trimmed_is_visible(line);
        remembered_is_bounded(v, typed);
        let name = parse::tokens(typed)[0];
        if builtin::builtin_named(name) is None && v.registry().dom().contains(
            name,
        ) {
            assert(assoc::ascending(w.commands)) by {
                assert forall|a: int, b: int| 0 <= a < b < w.commands.len() implies text::lex_lt(
                    (#[trigger] w.commands[a]).0,
                    (#[trigger] w.commands[b]).0,
                ) by {
                    assert(w.commands[a].0 == v.commands[a].0);
                    assert(w.commands[b].0 == v.commands[b].0);
                }
            }
        }
    }
}

/// The console once `lines` were echoed, one after the other.
pub open spec fn echoed_all<C>(v: ConsoleView<C>, lines: Seq<Seq<char>>) -> ConsoleView<C>
    decreases lines.len(),
{
    if lines.len() == 0 {
        v
    } else {
        echoed_all(v, lines.drop_last()).echoed(lines.last())
    }
}

/// Of lines that are entered, none repeating the one before it, the newest are remembered,
/// in order, as many as the memory holds.
pub proof fn input_memory_keeps_the_newest<C>(v: ConsoleView<C>, lines: Seq<Seq<char>>)
    requires
        v.wf(),
        model::no_repeats(v.input_history + lines),
    ensures
        echoed_all(v, lines).input_history == ring::capped(
            v.input_history + lines,
            model::MAX_INPUT_HISTORY as nat,
        ),
    decreases lines.len(),
{
    let h = v.input_history;
    let cap = model::MAX_INPUT_HISTORY as nat;
    if lines.len() == 0 {
        assert(h + lines =~= h);
    } else {
        let most = h + lines.drop_last();
        let x = lines.last();
        assert(h + lines =~= most.push(x));
        assert(model::no_repeats(most)) by {
            assert forall|i: int| 0 <= i < most.len() - 1 implies #[trigger] most[i] != most[i
                + 1] by {
                assert((h + lines)[i] != (h + lines)[i + 1]);
            }
        }
        input_memory_keeps_the_newest(v, lines.drop_last());
        let kept = ring::capped(most, cap);
        if most.len() > 0 {
            assert((h + lines)[most.len() - 1] != (h + lines)[most.len() as int]);
            assert(kept.last() == most.last());
        }
        ring::capped_twice(most, seq![x], cap);
        assert(kept + seq![x] =~= kept.push(x));
        assert(most + seq![x] =~= most.push(x));
    }
}

/// A blank line does nothing: it is not echoed, not remembered, and runs nothing.
pub proof fn blank_lines_do_nothing<Ctx, C: Command<Ctx>>(
    v: ConsoleView<C>,
    line: Seq<char>,
    before: Ctx,
    w: ConsoleView<C>,
    after: Ctx,
)
    requires
        forall|i: int| 0 <= i < line.len() ==> text::is_space(#[trigger] line[i]),
    ensures
        model::executed::<Ctx, C>(v, line, before, w, after) <==> w == v && after == before,
{
    blank_is_trimmed_away(line);
}

proof fn blank_is_trimmed_away(line: Seq<char>)
    requires
        forall|i: int| 0 <= i < line.len() ==> text::is_space(#[trigger] line[i]),
    ensures
        text::trimmed_start(line).len() == 0,
        text::trimmed(line).len() == 0,
    decreases line.len(),
{
    if line.len() > 0 {
        let t = line.drop_first();
        assert forall|i: int| 0 <= i < t.len() implies text::is_space(#[trigger] t[i]) by {
            assert(t[i] == line[i + 1]);
        }
        blank_is_trimmed_away(t);
        assert(text::is_space(line[0]));
        assert(text::trimmed_start(line) == text::trimmed_start(t));
    }
}

/// While a console is mirrored, every line that is written goes to the mirror, in order and
/// also where the scrollback has dropped it since; while it is not, none does.
pub proof fn mirror_misses_nothing<C>(
    v: ConsoleView<C>,
    first: Seq<LineView>,
    second: Seq<LineView>,
)
    ensures
        v.mirrored ==> v.written(first).written(second).unsent == v.unsent + first + second,
        !v.mirrored ==> v.written(first).unsent == v.unsent,
{
}

/// The scrollback shows the newest lines, in order, however they were written.
pub proof fn scrollback_keeps_the_newest<C>(
    v: ConsoleView<C>,
    first: Seq<LineView>,
    second: Seq<LineView>,
)
    ensures
        v.written(first).written(second) == v.written(first + second),
{
    ring::capped_twice(
        v.history + first,
        second,
        model::MAX_HISTORY_LINES as nat,
    );
    assert(v.history + (first + second) =~= v.history + first + second);
}

/// Help lists every command, registered or built in, once and by name.
pub proof fn help_lists_every_command<Ctx, C: Command<Ctx>>(v: ConsoleView<C>)
    ensures
        sorting::is_sorted(v.help_entries::<Ctx>(), sorting::first_key()),
        v.help_entries::<Ctx>().len() == v.commands.len() + 4,
        v.help_entries::<Ctx>().to_multiset() == (v.commands.map_values(
            |p: (Seq<char>, C)| (p.1.spec_name(), p.1.spec_help()),
        ) + builtin::all_builtins().map_values(
            |b: Builtin| (b.spec_name(), b.spec_help()),
        )).to_multiset(),
{
    sorting::in_order_sorts(
        v.commands.map_values(|p: (Seq<char>, C)| (p.1.spec_name(), p.1.spec_help()))
            + builtin::all_builtins().map_values(
            |b: Builtin| (b.spec_name(), b.spec_help()),
        ),
        sorting::first_key(),
    );
}

} // verus!
