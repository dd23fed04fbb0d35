//! Text as sequences of characters: comparison, searching, splitting, number formatting
//! and sorting. Everything here is stated over `Seq<char>`, the view of `str` and `String`.

use vstd::prelude::*;

verus! {

/// `String::push` appends one character.
pub assume_specification[ String::push ](s: &mut String, c: char)
    ensures
        final(s)@ == old(s)@.push(c),
;

// ---------------------------------------------------------------------------
// Characters
// ---------------------------------------------------------------------------

/// The characters with the Unicode `White_Space` property.
pub open spec fn is_space(c: char) -> bool {
    let n = c as int;
    ||| 0x09 <= n <= 0x0d
    ||| n == 0x20
    ||| n == 0x85
    ||| n == 0xa0
    ||| n == 0x1680
    ||| 0x2000 <= n <= 0x200a
    ||| n == 0x2028
    ||| n == 0x2029
    ||| n == 0x202f
    ||| n == 0x205f
    ||| n == 0x3000
}

/// True for white space.
pub fn is_whitespace(c: char) -> (r: bool)
    ensures
        r == is_space(c),
{
    let n: u32 = c as u32;
    (0x09 <= n && n <= 0x0d) || n == 0x20 || n == 0x85 || n == 0xa0 || n == 0x1680 || (0x2000 <= n
        && n <= 0x200a) || n == 0x2028 || n == 0x2029 || n == 0x202f || n == 0x205f || n == 0x3000
}

/// `c` with an ASCII capital replaced by its small letter.
pub open spec fn ascii_lower(c: char) -> char {
    if 'A' <= c && c <= 'Z' {
        ((c as int) + 32) as char
    } else {
        c
    }
}

fn char_to_lower(c: char) -> (r: char)
    ensures
        r == ascii_lower(c),
{
    if 'A' <= c && c <= 'Z' {
        let b: u8 = c as u8;
        (b + 32) as char
    } else {
        c
    }
}

// ---------------------------------------------------------------------------
// Whole texts
// ---------------------------------------------------------------------------

/// The views of a list of texts.
pub open spec fn views(v: Seq<String>) -> Seq<Seq<char>> {
    v.map_values(|s: String| s@)
}

/// The views of a list of borrowed texts.
pub open spec fn str_views(v: Seq<&str>) -> Seq<Seq<char>> {
    v.map_values(|s: &str| s@)
}

/// The characters of `s`, in order.
pub fn chars_of(s: &str) -> (r: Vec<char>)
    ensures
        r@ == s@,
{
    let mut out: Vec<char> = Vec::new();
    for c in it: s.chars()
        invariant
            out@ == it.seq().take(it.index()),
            it.seq() == s@,
    {
        out.push(c);
        assert(it.seq().take(it.index() + 1) == it.seq().take(it.index()).push(c));
    }
    assert(s@.take(s@.len() as int) == s@);
    out
}

/// The text made of `v[from..to]`.
pub fn string_of(v: &Vec<char>, from: usize, to: usize) -> (r: String)
    requires
        from <= to <= v.len(),
    ensures
        r@ == v@.subrange(from as int, to as int),
{
    let mut out = String::new();
    let mut i: usize = from;
    while i < to
        invariant
            from <= i <= to <= v.len(),
            out@ == v@.subrange(from as int, i as int),
        decreases to - i,
    {
        out.push(v[i]);
        assert(v@.subrange(from as int, i + 1) == v@.subrange(from as int, i as int).push(
            v@[i as int],
        ));
        i += 1;
    }
    out
}

/// Text equality. The encoded bytes are compared, and nothing is copied.
pub fn text_eq(a: &str, b: &str) -> (r: bool)
    ensures
        r == (a@ == b@),
{
    let x = a.as_bytes();
    let y = b.as_bytes();
    if x.len() != y.len() {
        return false;
    }
    let mut i: usize = 0;
    while i < x.len()
        invariant
            i <= x.len(),
            x.len() == y.len(),
            x@ == vstd::utf8::encode_utf8(a@),
            y@ == vstd::utf8::encode_utf8(b@),
            forall|j: int| 0 <= j < i ==> x@[j] == y@[j],
        decreases x.len() - i,
    {
        if x[i] != y[i] {
            assert(a@ != b@);
            return false;
        }
        i += 1;
    }
    proof {
        assert(x@ =~= y@);
        vstd::utf8::encode_utf8_decode_utf8(a@);
        vstd::utf8::encode_utf8_decode_utf8(b@);
    }
    true
}

/// Lexicographic order by code point, which is the order of `str`.
pub open spec fn lex_lt(a: Seq<char>, b: Seq<char>) -> bool
    decreases a.len(),
{
    if b.len() == 0 {
        false
    } else if a.len() == 0 {
        true
    } else if a[0] == b[0] {
        lex_lt(a.drop_first(), b.drop_first())
    } else {
        a[0] < b[0]
    }
}

/// No text comes before itself.
pub proof fn lex_irreflexive(a: Seq<char>)
    ensures
        !lex_lt(a, a),
    decreases a.len(),
{
    if a.len() > 0 {
        lex_irreflexive(a.drop_first());
    }
}

/// The order is transitive.
pub proof fn lex_transitive(a: Seq<char>, b: Seq<char>, c: Seq<char>)
    requires
        lex_lt(a, b),
        lex_lt(b, c),
    ensures
        lex_lt(a, c),
    decreases a.len(),
{
    if a.len() > 0 && a[0] == b[0] && b[0] == c[0] {
        lex_transitive(a.drop_first(), b.drop_first(), c.drop_first());
    }
}

/// Two different texts are ordered one way or the other.
pub proof fn lex_total(a: Seq<char>, b: Seq<char>)
    ensures
        lex_lt(a, b) || lex_lt(b, a) || a == b,
    decreases a.len(),
{
    if a.len() == 0 || b.len() == 0 {
        assert(a.len() == b.len() ==> a =~= b);
    } else if a[0] == b[0] {
        lex_total(a.drop_first(), b.drop_first());
        if a.drop_first() == b.drop_first() {
            assert(a =~= seq![a[0]] + a.drop_first());
            assert(b =~= seq![b[0]] + b.drop_first());
        }
    }
}

proof fn lex_step(a: Seq<char>, b: Seq<char>, i: int)
    requires
        0 <= i < a.len(),
        i < b.len(),
        a[i] == b[i],
    ensures
        lex_lt(a.skip(i), b.skip(i)) == lex_lt(a.skip(i + 1), b.skip(i + 1)),
{
    assert(a.skip(i).drop_first() =~= a.skip(i + 1));
    assert(b.skip(i).drop_first() =~= b.skip(i + 1));
}

/// Does `a` come before `b`?
pub fn text_lt(a: &str, b: &str) -> (r: bool)
    ensures
        r == lex_lt(a@, b@),
{
    let x = chars_of(a);
    let y = chars_of(b);
    let mut i: usize = 0;
    assert(a@.skip(0) =~= a@);
    assert(b@.skip(0) =~= b@);
    while i < x.len() && i < y.len() && x[i] == y[i]
        invariant
            i <= x.len(),
            i <= y.len(),
            x@ == a@,
            y@ == b@,
            lex_lt(a@, b@) == lex_lt(a@.skip(i as int), b@.skip(i as int)),
        decreases x.len() - i,
    {
        proof {
            lex_step(a@, b@, i as int);
        }
        i += 1;
    }
    if i >= y.len() {
        false
    } else if i >= x.len() {
        true
    } else {
        x[i] < y[i]
    }
}

/// Is `p` a prefix of `s`?
pub open spec fn has_prefix(s: Seq<char>, p: Seq<char>) -> bool {
    p.len() <= s.len() && s.take(p.len() as int) == p
}

/// `str::starts_with` on texts.
pub fn starts_with(s: &str, p: &str) -> (r: bool)
    ensures
        r == has_prefix(s@, p@),
{
    let x = chars_of(s);
    let y = chars_of(p);
    if y.len() > x.len() {
        return false;
    }
    let mut i: usize = 0;
    while i < y.len()
        invariant
            i <= y.len() <= x.len(),
            x@ == s@,
            y@ == p@,
            forall|j: int| 0 <= j < i ==> x@[j] == y@[j],
        decreases y.len() - i,
    {
        if x[i] != y[i] {
            assert(s@.take(p@.len() as int)[i as int] != p@[i as int]);
            return false;
        }
        i += 1;
    }
    assert(s@.take(p@.len() as int) =~= p@);
    true
}

/// The lower-case form of ASCII letters, other characters kept.
pub open spec fn lowered(s: Seq<char>) -> Seq<char> {
    s.map_values(|c: char| ascii_lower(c))
}

/// `str::to_ascii_lowercase`.
pub fn to_ascii_lowercase(s: &str) -> (r: String)
    ensures
        r@ == lowered(s@),
{
    let x = chars_of(s);
    let mut out = String::new();
    let mut i: usize = 0;
    while i < x.len()
        invariant
            i <= x.len(),
            x@ == s@,
            out@ == lowered(s@.take(i as int)),
        decreases x.len() - i,
    {
        out.push(char_to_lower(x[i]));
        assert(s@.take(i + 1) == s@.take(i as int).push(s@[i as int]));
        assert(lowered(s@.take(i + 1)) =~= lowered(s@.take(i as int)).push(
            ascii_lower(s@[i as int]),
        ));
        i += 1;
    }
    assert(s@.take(s@.len() as int) == s@);
    out
}

// ---------------------------------------------------------------------------
// Trimming and splitting
// ---------------------------------------------------------------------------

/// `s` without its leading white space.
pub open spec fn trimmed_start(s: Seq<char>) -> Seq<char>
    decreases s.len(),
{
    if s.len() > 0 && is_space(s[0]) {
        trimmed_start(s.drop_first())
    } else {
        s
    }
}

/// `s` without its trailing white space.
pub open spec fn trimmed_end(s: Seq<char>) -> Seq<char>
    decreases s.len(),
{
    if s.len() > 0 && is_space(s.last()) {
        trimmed_end(s.drop_last())
    } else {
        s
    }
}

/// `s` without the white space at its two ends.
pub open spec fn trimmed(s: Seq<char>) -> Seq<char> {
    trimmed_end(trimmed_start(s))
}

/// `str::trim`.
pub fn trim(s: &str) -> (r: String)
    ensures
        r@ == trimmed(s@),
{
    let x = chars_of(s);
    let mut from: usize = 0;
    assert(s@.skip(0) =~= s@);
    while from < x.len() && is_whitespace(x[from])
        invariant
            from <= x.len(),
            x@ == s@,
            trimmed_start(s@) == trimmed_start(s@.skip(from as int)),
        decreases x.len() - from,
    {
        assert(s@.skip(from as int).drop_first() =~= s@.skip(from + 1));
        from += 1;
    }
    let mut to: usize = x.len();
    let ghost t = s@.skip(from as int);
    assert(trimmed_start(s@) == t);
    assert(s@.subrange(from as int, to as int) =~= t);
    while from < to && is_whitespace(x[to - 1])
        invariant
            from <= to <= x.len(),
            x@ == s@,
            trimmed_end(t) == trimmed_end(s@.subrange(from as int, to as int)),
        decreases to,
    {
        assert(s@.subrange(from as int, to as int).drop_last() =~= s@.subrange(
            from as int,
            to - 1,
        ));
        to -= 1;
    }
    string_of(&x, from, to)
}

/// What trimming leaves begins and ends with something visible.
pub proof fn trimmed_is_visible(s: Seq<char>)
    ensures
        trimmed(s).len() > 0 ==> !is_space(trimmed(s)[0]) && !is_space(trimmed(s).last()),
{
    trimmed_start_is_visible(s);
    trimmed_end_is_visible(trimmed_start(s));
}

proof fn trimmed_start_is_visible(s: Seq<char>)
    ensures
        trimmed_start(s).len() > 0 ==> !is_space(trimmed_start(s)[0]),
    decreases s.len(),
{
    if s.len() > 0 && is_space(s[0]) {
        trimmed_start_is_visible(s.drop_first());
    }
}

proof fn trimmed_end_is_visible(s: Seq<char>)
    ensures
        trimmed_end(s).len() > 0 ==> !is_space(trimmed_end(s).last()) && trimmed_end(s)[0] == s[0],
    decreases s.len(),
{
    if s.len() > 0 && is_space(s.last()) {
        trimmed_end_is_visible(s.drop_last());
    }
}

/// Does `s` end in white space?
pub open spec fn ends_in_space(s: Seq<char>) -> bool {
    s.len() > 0 && is_space(s.last())
}

/// `s.ends_with(char::is_whitespace)`.
pub fn ends_with_whitespace(s: &str) -> (r: bool)
    ensures
        r == ends_in_space(s@),
{
    let x = chars_of(s);
    x.len() > 0 && is_whitespace(x[x.len() - 1])
}

/// Where `c` first occurs in `s`; the length of `s` where it does not.
pub open spec fn first_at(s: Seq<char>, c: char) -> int
    decreases s.len(),
{
    if s.len() == 0 || s[0] == c {
        0
    } else {
        1 + first_at(s.drop_first(), c)
    }
}

/// `first_at` is the least position that holds `c`.
pub proof fn first_at_is_first(s: Seq<char>, c: char)
    ensures
        0 <= first_at(s, c) <= s.len(),
        first_at(s, c) < s.len() ==> s[first_at(s, c)] == c,
        forall|j: int| 0 <= j < first_at(s, c) ==> s[j] != c,
        first_at(s, c) < s.len() <==> s.contains(c),
    decreases s.len(),
{
    if s.len() > 0 && s[0] != c {
        let t = s.drop_first();
        first_at_is_first(t, c);
        assert forall|j: int| 0 <= j < first_at(s, c) implies s[j] != c by {
            if j > 0 {
                assert(t[j - 1] == s[j]);
            }
        }
        if s.contains(c) {
            let j = choose|j: int| 0 <= j < s.len() && s[j] == c;
            assert(t[j - 1] == c);
        }
        if first_at(t, c) < t.len() {
            assert(s[first_at(s, c)] == c);
        }
    } else if s.len() > 0 {
        assert(s[0] == c);
    }
}

/// The first position of `c` in `v`, or its length.
pub fn position_of(v: &Vec<char>, c: char) -> (r: usize)
    ensures
        r == first_at(v@, c),
        r <= v.len(),
{
    let mut i: usize = 0;
    assert(v@.skip(0) =~= v@);
    while i < v.len() && v[i] != c
        invariant
            i <= v.len(),
            first_at(v@, c) == i + first_at(v@.skip(i as int), c),
        decreases v.len() - i,
    {
        assert(v@.skip(i as int).drop_first() =~= v@.skip(i + 1));
        i += 1;
    }
    i
}

/// The words of `s`: its maximal runs of characters that are not white space.
pub open spec fn words(s: Seq<char>) -> Seq<Seq<char>>
    decreases s.len(),
{
    if s.len() == 0 {
        Seq::empty()
    } else {
        let before = words(s.drop_last());
        let c = s.last();
        if is_space(c) {
            before
        } else if s.len() >= 2 && !is_space(s[s.len() - 2]) {
            before.drop_last().push(before.last().push(c))
        } else {
            before.push(seq![c])
        }
    }
}

proof fn words_end_in_last(s: Seq<char>)
    requires
        s.len() > 0,
        !is_space(s.last()),
    ensures
        words(s).len() > 0,
{
}

/// The words of two texts, where the first ends in white space, are those of the one and
/// then those of the other.
pub proof fn words_split(a: Seq<char>, b: Seq<char>)
    requires
        a.len() == 0 || is_space(a.last()),
    ensures
        words(a + b) == words(a) + words(b),
    decreases b.len(),
{
    let s = a + b;
    if b.len() == 0 {
        assert(s =~= a);
        assert(words(a) + words(b) =~= words(a));
    } else {
        let d = b.drop_last();
        words_split(a, d);
        assert(s.drop_last() =~= a + d);
        assert(s.last() == b.last());
        if !is_space(b.last()) {
            if b.len() >= 2 {
                assert(s[s.len() - 2] == b[b.len() - 2]);
                if !is_space(b[b.len() - 2]) {
                    assert(d.last() == b[b.len() - 2]);
                    words_end_in_last(d);
                    let both = words(a) + words(d);
                    assert(both.last() == words(d).last());
                    assert(both.drop_last().push(both.last().push(b.last())) =~= words(a)
                        + words(d).drop_last().push(words(d).last().push(b.last())));
                } else {
                    assert((words(a) + words(d)).push(seq![b.last()]) =~= words(a) + words(d).push(
                        seq![b.last()],
                    ));
                }
            } else {
                if a.len() > 0 {
                    assert(s[s.len() - 2] == a.last());
                }
                assert(d =~= Seq::empty());
                assert((words(a) + words(d)).push(seq![b.last()]) =~= words(a) + words(d).push(
                    seq![b.last()],
                ));
            }
        }
    }
}

/// A run of characters that are not white space is one word.
pub proof fn word_alone(w: Seq<char>)
    requires
        w.len() > 0,
        forall|k: int| 0 <= k < w.len() ==> !is_space(#[trigger] w[k]),
    ensures
        words(w) == seq![w],
    decreases w.len(),
{
    let d = w.drop_last();
    assert(!is_space(w[w.len() - 1]));
    if w.len() >= 2 {
        assert forall|k: int| 0 <= k < d.len() implies !is_space(#[trigger] d[k]) by {
            assert(d[k] == w[k]);
        }
        word_alone(d);
        assert(!is_space(w[w.len() - 2]));
        assert(d.push(w.last()) =~= w);
        assert(seq![d].drop_last().push(d.push(w.last())) =~= seq![w]);
    } else {
        assert(d =~= Seq::empty());
        assert(words(d) =~= Seq::empty());
        assert(seq![w.last()] =~= w);
        assert(words(d).push(seq![w.last()]) =~= seq![w]);
    }
}

/// Does a maximal run of characters that are not white space stand in `s` from `i` to `j`?
pub open spec fn is_run(s: Seq<char>, i: int, j: int) -> bool {
    &&& 0 <= i < j <= s.len()
    &&& forall|k: int| i <= k < j ==> !is_space(#[trigger] s[k])
    &&& i == 0 || is_space(s[i - 1])
    &&& j == s.len() || is_space(s[j])
}

/// Behind white space, the runs of a text are those of what follows.
proof fn runs_behind(s: Seq<char>, m: int, i: int, j: int)
    requires
        0 < m <= i,
        m <= s.len(),
        is_space(s[m - 1]),
    ensures
        is_run(s, i, j) <==> is_run(s.skip(m), i - m, j - m),
        i <= j <= s.len() ==> s.subrange(i, j) == s.skip(m).subrange(i - m, j - m),
{
    let t = s.skip(m);
    if i <= j <= s.len() {
        assert(s.subrange(i, j) =~= t.subrange(i - m, j - m));
        assert(forall|k: int| i <= k < j ==> s[k] == #[trigger] t[k - m]);
        if is_run(s, i, j) {
            assert forall|k: int| i - m <= k < j - m implies !is_space(#[trigger] t[k]) by {
                assert(!is_space(s[k + m]));
            }
        }
        if is_run(t, i - m, j - m) {
            assert forall|k: int| i <= k < j implies !is_space(#[trigger] s[k]) by {
                assert(!is_space(t[k - m]));
            }
        }
    }
}

/// Where the run that a text opens with ends.
pub proof fn first_run_ends(s: Seq<char>, n: int) -> (r: int)
    requires
        0 <= n <= s.len(),
        forall|k: int| 0 <= k < n ==> !is_space(#[trigger] s[k]),
    ensures
        n <= r <= s.len(),
        forall|k: int| 0 <= k < r ==> !is_space(#[trigger] s[k]),
        r == s.len() || is_space(s[r]),
    decreases s.len() - n,
{
    if n == s.len() || is_space(s[n]) {
        n
    } else {
        first_run_ends(s, n + 1)
    }
}

/// The words of a text are its maximal runs of characters that are not white space: every
/// such run is a word, and every word is such a run.
pub proof fn words_are_runs(s: Seq<char>)
    ensures
        forall|i: int, j: int| #[trigger]
            is_run(s, i, j) ==> words(s).contains(s.subrange(i, j)),
        forall|n: int|
            0 <= n < words(s).len() ==> exists|i: int, j: int| #[trigger]
                is_run(s, i, j) && #[trigger] words(s)[n] == s.subrange(i, j),
    decreases s.len(),
{
    if s.len() > 0 {
        let all = words(s);
        let end = first_run_ends(s, 0);
        if end == s.len() {
            word_alone(s);
            assert(s.subrange(0, end) =~= s);
            assert(is_run(s, 0, end));
            assert(all[0] == s);
            assert forall|i: int, j: int| #[trigger] is_run(s, i, j) implies all.contains(
                s.subrange(i, j),
            ) by {
                if i > 0 {
                    assert(!is_space(s[i - 1]));
                }
                if j < s.len() {
                    assert(!is_space(s[j]));
                }
            }
        } else {
            let m = end + 1;
            let head = s.take(m);
            let rest = s.skip(m);
            assert(head + rest =~= s);
            words_split(head, rest);
            words_are_runs(rest);
            let first = s.take(end);
            assert(head.drop_last() =~= first);
            assert(words(head) == words(first));
            if end > 0 {
                assert forall|k: int| 0 <= k < first.len() implies !is_space(#[trigger] first[k]) by {
                    assert(first[k] == s[k]);
                }
                word_alone(first);
                assert(s.subrange(0, end) =~= first);
                assert(is_run(s, 0, end));
            } else {
                assert(first =~= Seq::empty());
            }
            let n0 = words(first).len() as int;
            assert forall|i: int, j: int| #[trigger] is_run(s, i, j) implies all.contains(
                s.subrange(i, j),
            ) by {
                if i >= m {
                    runs_behind(s, m, i, j);
                    let n = choose|n: int|
                        0 <= n < words(rest).len() && words(rest)[n] == rest.subrange(
                            i - m,
                            j - m,
                        );
                    assert(all[n0 + n] == words(rest)[n]);
                } else {
                    if i > 0 {
                        assert(is_space(s[i - 1]));
                    }
                    assert(!is_space(s[i]));
                    assert(i == 0);
                    if j > end {
                        assert(!is_space(s[end]));
                    } else if j < end {
                        assert(is_space(s[j]));
                    }
                    assert(all[0] == first);
                }
            }
            assert forall|n: int| 0 <= n < all.len() implies exists|i: int, j: int| #[trigger]
                is_run(s, i, j) && #[trigger] all[n] == s.subrange(i, j) by {
                if n < n0 {
                    assert(all[n] == s.subrange(0, end));
                } else {
                    assert(all[n] == words(rest)[n - n0]);
                    let (i, j) = choose|i: int, j: int| #[trigger]
                        is_run(rest, i, j) && words(rest)[n - n0] == rest.subrange(i, j);
                    runs_behind(s, m, i + m, j + m);
                    assert(is_run(s, i + m, j + m));
                }
            }
        }
    }
}

/// `str::split_whitespace`.
pub fn split_whitespace(s: &str) -> (r: Vec<String>)
    ensures
        views(r@) == words(s@),
{
    let x = chars_of(s);
    let mut out: Vec<String> = Vec::new();
    let mut word = String::new();
    let mut in_word = false;
    let mut i: usize = 0;
    while i < x.len()
        invariant
            i <= x.len(),
            x@ == s@,
            in_word == (i > 0 && !is_space(s@[i - 1])),
            in_word ==> words(s@.take(i as int)) == views(out@).push(word@),
            !in_word ==> words(s@.take(i as int)) == views(out@) && word@.len() == 0,
        decreases x.len() - i,
    {
        let ghost before = s@.take(i as int);
        let ghost after = s@.take(i + 1);
        assert(after.drop_last() =~= before);
        assert(after.last() == s@[i as int]);
        if is_whitespace(x[i]) {
            if in_word {
                let ghost out0 = out@;
                out.push(word);
                assert(views(out@) =~= views(out0).push(word@));
                word = String::new();
                in_word = false;
            }
        } else {
            let ghost word0 = word@;
            word.push(x[i]);
            proof {
                if in_word {
                    assert(after[after.len() - 2] == s@[i - 1]);
                    let b = words(before);
                    assert(b.drop_last() =~= views(out@));
                    assert(b.last() == word0);
                } else {
                    if i > 0 {
                        assert(after[after.len() - 2] == s@[i - 1]);
                    }
                    assert(word@ =~= seq![s@[i as int]]);
                }
            }
            in_word = true;
        }
        i += 1;
    }
    assert(s@.take(s@.len() as int) =~= s@);
    if in_word {
        let ghost out0 = out@;
        out.push(word);
        assert(views(out@) =~= views(out0).push(word@));
    }
    out
}

/// Texts put one after the other with `sep` between neighbours.
pub open spec fn joined(parts: Seq<Seq<char>>, sep: Seq<char>) -> Seq<char>
    decreases parts.len(),
{
    if parts.len() == 0 {
        Seq::empty()
    } else if parts.len() == 1 {
        parts[0]
    } else {
        joined(parts.drop_last(), sep) + sep + parts.last()
    }
}

/// `[String]::join`.
pub fn join(parts: &Vec<String>, sep: &str) -> (r: String)
    ensures
        r@ == joined(views(parts@), sep@),
{
    let mut out = String::new();
    let mut i: usize = 0;
    while i < parts.len()
        invariant
            i <= parts.len(),
            out@ == joined(views(parts@).take(i as int), sep@),
        decreases parts.len() - i,
    {
        let ghost all = views(parts@);
        if i > 0 {
            out.append(sep);
        }
        out.append(parts[i].as_str());
        assert(all.take(i + 1).drop_last() =~= all.take(i as int));
        assert(all.take(i + 1).last() == parts@[i as int]@);
        proof {
            if i == 0 {
                assert(out@ =~= parts@[0]@);
            }
        }
        i += 1;
    }
    assert(views(parts@).take(parts@.len() as int) =~= views(parts@));
    out
}

// ---------------------------------------------------------------------------
// Numbers
// ---------------------------------------------------------------------------

/// The decimal digit for `d`.
pub open spec fn digit_char(d: nat) -> char {
    (('0' as int) + d) as char
}

/// `n` in decimal, without leading zeros.
pub open spec fn decimal(n: nat) -> Seq<char>
    decreases n,
{
    if n < 10 {
        seq![digit_char(n)]
    } else {
        decimal(n / 10).push(digit_char(n % 10))
    }
}

/// `n.to_string()`.
pub fn number_wide(n: u128) -> (r: String)
    ensures
        r@ == decimal(n as nat),
    decreases n,
{
    if n < 10 {
        let mut s = String::new();
        s.push((48u8 + n as u8) as char);
        assert(s@ =~= decimal(n as nat));
        s
    } else {
        let mut s = number_wide(n / 10);
        s.push((48u8 + (n % 10) as u8) as char);
        s
    }
}

/// `n.to_string()`.
pub fn number(n: u64) -> (r: String)
    ensures
        r@ == decimal(n as nat),
{
    number_wide(n as u128)
}

/// `n` in decimal with zeros in front, `width` digits or more.
pub open spec fn zero_filled(n: nat, width: nat) -> Seq<char> {
    let d = decimal(n);
    if d.len() < width {
        Seq::new((width - d.len()) as nat, |i: int| '0') + d
    } else {
        d
    }
}

/// `format!("{n:0width$}")`.
pub fn number_filled(n: u64, width: usize) -> (r: String)
    ensures
        r@ == zero_filled(n as nat, width as nat),
{
    let d = number(n);
    let len: usize = d.as_str().unicode_len();
    let mut s = String::new();
    let mut i: usize = len;
    while i < width
        invariant
            len <= i,
            len < width ==> i <= width,
            len >= width ==> i == len,
            s@ == Seq::new((i - len) as nat, |i: int| '0'),
        decreases width - i,
    {
        s.push('0');
        assert(s@ =~= Seq::new((i + 1 - len) as nat, |i: int| '0'));
        i += 1;
    }
    s.append(d.as_str());
    assert(s@ =~= zero_filled(n as nat, width as nat));
    s
}

/// Is `c` an ASCII digit?
pub open spec fn is_digit(c: char) -> bool {
    '0' <= c && c <= '9'
}

/// The number that a run of digits spells.
pub open spec fn digits_value(s: Seq<char>) -> nat
    decreases s.len(),
{
    if s.len() == 0 {
        0
    } else {
        digits_value(s.drop_last()) * 10 + ((s.last() as int) - ('0' as int)) as nat
    }
}

/// A number written in decimal, with or without zeros in front, reads back as itself.
pub proof fn decimal_reads_back(n: nat, width: nat)
    ensures
        digits_value(decimal(n)) == n,
        digits_value(zero_filled(n, width)) == n,
{
    decimal_value(n);
    if decimal(n).len() < width {
        let zeros = (width - decimal(n).len()) as nat;
        leading_zeros(zeros, decimal(n));
    }
}

proof fn decimal_value(n: nat)
    ensures
        digits_value(decimal(n)) == n,
    decreases n,
{
    if n < 10 {
        let s = decimal(n);
        assert(s.drop_last() =~= Seq::empty());
        assert(s.last() == digit_char(n));
        assert(digits_value(s.drop_last()) == 0);
    } else {
        decimal_value(n / 10);
        assert(decimal(n).drop_last() =~= decimal(n / 10));
    }
}

proof fn leading_zeros(k: nat, s: Seq<char>)
    ensures
        digits_value(Seq::new(k, |i: int| '0') + s) == digits_value(s),
    decreases k + s.len(),
{
    let z = Seq::new(k, |i: int| '0');
    if s.len() > 0 {
        leading_zeros(k, s.drop_last());
        assert((z + s).drop_last() =~= z + s.drop_last());
    } else if k > 0 {
        leading_zeros((k - 1) as nat, s);
        assert((z + s).drop_last() =~= Seq::new((k - 1) as nat, |i: int| '0') + s);
    } else {
        assert(z + s =~= s);
    }
}

/// `s` without a leading `+`.
pub open spec fn unsigned_part(s: Seq<char>) -> Seq<char> {
    if s.len() > 0 && s[0] == '+' {
        s.drop_first()
    } else {
        s
    }
}

/// What an unsigned integer's `FromStr` reads: an optional `+`, then one or more digits.
/// `None` for any other text.
pub open spec fn unsigned_value(s: Seq<char>) -> Option<nat> {
    let d = unsigned_part(s);
    if d.len() > 0 && (forall|i: int| 0 <= i < d.len() ==> is_digit(#[trigger] d[i])) {
        Some(digits_value(d))
    } else {
        None
    }
}

/// Reading a number, where it does not pass `max`.
pub open spec fn bounded_value(s: Seq<char>, max: nat) -> Option<nat> {
    match unsigned_value(s) {
        Some(n) => if n <= max {
            Some(n)
        } else {
            None
        },
        None => None,
    }
}

/// Parse an unsigned integer that does not pass `max`.
pub fn parse_bounded(s: &str, max: u64) -> (r: Option<u64>)
    ensures
        match r {
            Some(n) => bounded_value(s@, max as nat) == Some(n as nat),
            None => bounded_value(s@, max as nat) is None,
        },
{
    let x = chars_of(s);
    let from: usize = if x.len() > 0 && x[0] == '+' {
        1
    } else {
        0
    };
    let ghost d = unsigned_part(s@);
    assert(d =~= x@.skip(from as int));
    if from >= x.len() {
        return None;
    }
    let mut n: u64 = 0;
    let mut over = false;
    let mut i: usize = from;
    while i < x.len()
        invariant
            from <= i <= x.len(),
            d == x@.skip(from as int),
            d == unsigned_part(s@),
            forall|j: int| 0 <= j < i - from ==> is_digit(#[trigger] d[j]),
            !over ==> n == digits_value(d.take(i - from)) && n <= max,
            over ==> digits_value(d.take(i - from)) > max,
        decreases x.len() - i,
    {
        let c = x[i];
        assert(c == d[i - from]);
        if c < '0' || c > '9' {
            assert(!is_digit(d[i - from]) && 0 <= i - from < d.len());
            assert(unsigned_value(s@) is None);
            return None;
        }
        let ghost k = i - from;
        assert(d.take(k + 1).drop_last() =~= d.take(k));
        assert(d.take(k + 1).last() == c);
        let v: u64 = (c as u32 - '0' as u32) as u64;
        if !over {
            if n > (u64::MAX - v) / 10 || n * 10 + v > max {
                over = true;
            } else {
                n = n * 10 + v;
            }
        }
        i += 1;
    }
    assert(d.take(d.len() as int) =~= d);
    if over {
        None
    } else {
        Some(n)
    }
}

/// `s.parse::<u32>().ok()`.
pub fn parse_u32(s: &str) -> (r: Option<u32>)
    ensures
        match r {
            Some(n) => bounded_value(s@, u32::MAX as nat) == Some(n as nat),
            None => bounded_value(s@, u32::MAX as nat) is None,
        },
{
    match parse_bounded(s, u32::MAX as u64) {
        Some(n) => Some(n as u32),
        None => None,
    }
}

// ---------------------------------------------------------------------------
// Columns
// ---------------------------------------------------------------------------

/// `n` spaces.
pub open spec fn spaces(n: nat) -> Seq<char> {
    Seq::new(n, |i: int| ' ')
}

/// `s` left-aligned in a column of `width` characters; longer texts are kept whole.
pub open spec fn padded(s: Seq<char>, width: nat) -> Seq<char> {
    if s.len() < width {
        s + spaces((width - s.len()) as nat)
    } else {
        s
    }
}

/// `s` right-aligned in a column of `width` characters.
pub open spec fn padded_left(s: Seq<char>, width: nat) -> Seq<char> {
    if s.len() < width {
        spaces((width - s.len()) as nat) + s
    } else {
        s
    }
}

fn blank(n: usize) -> (r: String)
    ensures
        r@ == spaces(n as nat),
{
    let mut out = String::new();
    let mut i: usize = 0;
    while i < n
        invariant
            i <= n,
            out@ == spaces(i as nat),
        decreases n - i,
    {
        out.push(' ');
        assert(spaces((i + 1) as nat) =~= spaces(i as nat).push(' '));
        i += 1;
    }
    assert(out@ =~= spaces(n as nat));
    out
}

/// `format!("{s:width$}")`.
pub fn pad(s: &str, width: usize) -> (r: String)
    ensures
        r@ == padded(s@, width as nat),
{
    let n: usize = s.unicode_len();
    let mut out = s.to_owned();
    if n < width {
        let fill = blank(width - n);
        out.append(fill.as_str());
    }
    out
}

/// `format!("{s:>width$}")`.
pub fn pad_left(s: &str, width: usize) -> (r: String)
    ensures
        r@ == padded_left(s@, width as nat),
{
    let n: usize = s.unicode_len();
    if n < width {
        let mut out = blank(width - n);
        out.append(s);
        out
    } else {
        s.to_owned()
    }
}

// ---------------------------------------------------------------------------
// Parts
// ---------------------------------------------------------------------------

/// Does `p` stand in `s` from place `i` on?
pub open spec fn stands_at(s: Seq<char>, p: Seq<char>, i: int) -> bool {
    0 <= i && i + p.len() <= s.len() && s.subrange(i, i + p.len()) == p
}

/// Does `p` occur in `s`?
pub open spec fn has_part(s: Seq<char>, p: Seq<char>) -> bool {
    exists|i: int| stands_at(s, p, i)
}

/// `str::contains`.
pub fn contains(s: &str, p: &str) -> (r: bool)
    ensures
        r == has_part(s@, p@),
{
    let n: usize = s.unicode_len();
    let m: usize = p.unicode_len();
    if m > n {
        return false;
    }
    let mut i: usize = 0;
    while i <= n - m
        invariant
            m <= n == s@.len(),
            m == p@.len(),
            i <= n - m + 1,
            forall|j: int| 0 <= j < i ==> !stands_at(s@, p@, j),
        decreases n - m + 1 - i,
    {
        if text_eq(s.substring_char(i, i + m), p) {
            assert(stands_at(s@, p@, i as int));
            return true;
        }
        if i == n - m {
            return false;
        }
        i += 1;
    }
    false
}

/// Does `s` end with `p`?
pub open spec fn has_suffix(s: Seq<char>, p: Seq<char>) -> bool {
    p.len() <= s.len() && s.skip(s.len() - p.len()) == p
}

/// `str::ends_with`.
pub fn ends_with(s: &str, p: &str) -> (r: bool)
    ensures
        r == has_suffix(s@, p@),
{
    let n: usize = s.unicode_len();
    let m: usize = p.unicode_len();
    if m > n {
        return false;
    }
    let tail = s.substring_char(n - m, n);
    assert(tail@ =~= s@.skip(n - m));
    text_eq(tail, p)
}

// ---------------------------------------------------------------------------
// Laws
// ---------------------------------------------------------------------------

proof fn trimmed_start_is_end_of(s: Seq<char>)
    ensures
        trimmed_start(s).len() <= s.len(),
        trimmed_start(s) == s.skip(s.len() - trimmed_start(s).len()),
        forall|k: int| 0 <= k < s.len() - trimmed_start(s).len() ==> is_space(#[trigger] s[k]),
    decreases s.len(),
{
    if s.len() > 0 && is_space(s[0]) {
        let d = s.drop_first();
        trimmed_start_is_end_of(d);
        let n = trimmed_start(s).len() as int;
        assert(s.skip(s.len() - n) =~= d.skip(d.len() - n));
        assert forall|k: int| 0 <= k < s.len() - n implies is_space(#[trigger] s[k]) by {
            if k > 0 {
                assert(d[k - 1] == s[k]);
            }
        }
    } else {
        assert(s.skip(0) =~= s);
    }
}

proof fn trimmed_end_is_start_of(s: Seq<char>)
    ensures
        trimmed_end(s).len() <= s.len(),
        trimmed_end(s) == s.take(trimmed_end(s).len() as int),
        forall|k: int| trimmed_end(s).len() <= k < s.len() ==> is_space(#[trigger] s[k]),
    decreases s.len(),
{
    if s.len() > 0 && is_space(s.last()) {
        let d = s.drop_last();
        trimmed_end_is_start_of(d);
        let n = trimmed_end(s).len() as int;
        assert(s.take(n) =~= d.take(n));
        assert forall|k: int| n <= k < s.len() implies is_space(#[trigger] s[k]) by {
            if k < d.len() {
                assert(d[k] == s[k]);
            }
        }
    } else {
        assert(s.take(s.len() as int) =~= s);
    }
}

/// Trimming takes white space from both ends, all of it, and nothing else.
pub proof fn trimming_takes_white_space(s: Seq<char>)
    ensures
        exists|i: int, j: int|
            0 <= i <= j <= s.len() && trimmed(s) == #[trigger] s.subrange(i, j) && (forall|k: int|
                (0 <= k < i || j <= k < s.len()) ==> is_space(#[trigger] s[k])),
        trimmed(s).len() > 0 ==> !is_space(trimmed(s)[0]) && !is_space(trimmed(s).last()),
        forall|t: &str, r: String| #[trigger]
            call_ensures(trim, (t,), r) && t@ == s ==> r@ == trimmed(s),
{
    trimmed_is_visible(s);
    trimmed_start_is_end_of(s);
    let m = trimmed_start(s);
    trimmed_end_is_start_of(m);
    let i = s.len() - m.len();
    let j = i + trimmed(s).len();
    assert(trimmed(s) =~= s.subrange(i, j));
    assert forall|k: int| (0 <= k < i || j <= k < s.len()) implies is_space(#[trigger] s[k]) by {
        if k >= j {
            assert(m[k - i] == s[k]);
        }
    }
}

/// Texts are ordered by the first character in which they differ, and one that goes on comes
/// behind the one that does not.
pub proof fn order_is_by_the_first_difference(
    p: Seq<char>,
    x: char,
    y: char,
    s: Seq<char>,
    t: Seq<char>,
)
    ensures
        x < y ==> lex_lt(p + seq![x] + s, p + seq![y] + t) && !lex_lt(
            p + seq![y] + t,
            p + seq![x] + s,
        ),
        lex_lt(p, p + seq![x] + s),
        !lex_lt(p + seq![x] + s, p),
        forall|a: &str, b: &str, r: bool| #[trigger]
            call_ensures(text_lt, (a, b), r) ==> r == lex_lt(a@, b@),
    decreases p.len(),
{
    let a = p + seq![x] + s;
    let b = p + seq![y] + t;
    if p.len() > 0 {
        let d = p.drop_first();
        order_is_by_the_first_difference(d, x, y, s, t);
        assert(a.drop_first() =~= d + seq![x] + s);
        assert(b.drop_first() =~= d + seq![y] + t);
        assert(a[0] == p[0] && b[0] == p[0]);
    } else {
        assert(a[0] == x && b[0] == y);
    }
}

/// Words that are joined by a space come apart again.
pub proof fn joined_words_split(parts: Seq<Seq<char>>)
    requires
        forall|i: int| 0 <= i < parts.len() ==> (#[trigger] parts[i]).len() > 0,
        forall|i: int, k: int|
            0 <= i < parts.len() && 0 <= k < parts[i].len() ==> !is_space(#[trigger] parts[i][k]),
    ensures
        words(joined(parts, seq![' '])) == parts,
    decreases parts.len(),
{
    let sep = seq![' '];
    if parts.len() == 0 {
        assert(parts =~= Seq::empty());
    } else if parts.len() == 1 {
        word_alone(parts[0]);
        assert(parts =~= seq![parts[0]]);
    } else {
        let d = parts.drop_last();
        assert forall|i: int| 0 <= i < d.len() implies (#[trigger] d[i]).len() > 0 by {
            assert(d[i] == parts[i]);
        }
        assert forall|i: int, k: int| 0 <= i < d.len() && 0 <= k < d[i].len() implies !is_space(
            #[trigger] d[i][k],
        ) by {
            assert(parts[i][k] == d[i][k]);
        }
        joined_words_split(d);
        let head = joined(d, sep) + sep;
        let last = parts.last();
        assert forall|k: int| 0 <= k < last.len() implies !is_space(#[trigger] last[k]) by {
            assert(parts[parts.len() - 1][k] == last[k]);
        }
        word_alone(last);
        words_split(head, last);
        assert(head.drop_last() =~= joined(d, sep));
        assert(words(head) == words(joined(d, sep)));
        assert(d + seq![last] =~= parts);
    }
}

proof fn decimal_is_digits(n: nat)
    ensures
        decimal(n).len() > 0,
        forall|k: int| 0 <= k < decimal(n).len() ==> is_digit(#[trigger] decimal(n)[k]),
        n > 0 ==> decimal(n)[0] != '0',
    decreases n,
{
    if n >= 10 {
        decimal_is_digits(n / 10);
    }
}

/// A number is written in digits, without needless zeros, and is read back as it was, where
/// there is room for it; filled up, it has at least the width that was asked for, and no more
/// zeros than that takes.
pub proof fn numbers_round_trip(n: nat, width: nat, max: nat)
    ensures
        forall|k: int| 0 <= k < decimal(n).len() ==> is_digit(#[trigger] decimal(n)[k]),
        n > 0 ==> decimal(n)[0] != '0',
        bounded_value(decimal(n), max) == (if n <= max {
            Some(n)
        } else {
            None
        }),
        zero_filled(n, width).len() == (if decimal(n).len() < width {
            width
        } else {
            decimal(n).len()
        }),
        digits_value(zero_filled(n, width)) == n,
{
    decimal_is_digits(n);
    decimal_reads_back(n, width);
    assert(decimal(n)[0] != '+') by {
        assert(is_digit(decimal(n)[0]));
    }
    assert(unsigned_part(decimal(n)) == decimal(n));
}

/// What is not a number is not read as one: neither nothing, nor a lone sign, nor a text with
/// anything else than digits behind its sign.
pub proof fn only_numbers_are_read(s: Seq<char>, max: nat, k: int)
    requires
        s.len() == 0 || s == seq!['+'] || (0 <= k < s.len() && !is_digit(s[k]) && (s[k] != '+' || k
            > 0)),
    ensures
        bounded_value(s, max) is None,
{
    let d = unsigned_part(s);
    if s.len() > 0 && s != seq!['+'] {
        if s[0] == '+' {
            if s.len() == 1 {
                assert(s =~= seq!['+']);
            }
            assert(d[k - 1] == s[k]);
        } else {
            assert(d[k] == s[k]);
        }
    }
}

/// Padding keeps the text, and fills it with spaces behind or before it to the width.
pub proof fn padding_keeps_the_text()
    ensures
        forall|s: &str, width: usize, r: String| #[trigger]
            call_ensures(pad, (s, width), r) ==> {
                &&& s@.is_prefix_of(r@)
                &&& r@.len() == s@.len() || r@.len() == width
                &&& r@.len() >= width
                &&& forall|k: int| s@.len() <= k < r@.len() ==> #[trigger] r@[k] == ' '
            },
        forall|s: &str, width: usize, r: String| #[trigger]
            call_ensures(pad_left, (s, width), r) ==> {
                &&& s@.is_suffix_of(r@)
                &&& r@.len() == s@.len() || r@.len() == width
                &&& r@.len() >= width
                &&& forall|k: int| 0 <= k < r@.len() - s@.len() ==> #[trigger] r@[k] == ' '
            },
{
    assert forall|s: &str, width: usize, r: String| #[trigger]
        call_ensures(pad, (s, width), r) implies s@.is_prefix_of(r@) by {
        assert(s@ =~= r@.subrange(0, s@.len() as int));
    }
    assert forall|s: &str, width: usize, r: String| #[trigger]
        call_ensures(pad_left, (s, width), r) implies s@.is_suffix_of(r@) by {
        assert(s@ =~= r@.subrange(r@.len() - s@.len(), r@.len() as int));
    }
}

/// A text is found in another exactly where the other can be written around it.
pub proof fn parts_are_found(head: Seq<char>, p: Seq<char>, tail: Seq<char>)
    ensures
        forall|s: &str, q: &str, r: bool| #[trigger]
            call_ensures(contains, (s, q), r) && q@ == p && s@ == head + p + tail ==> r,
        forall|s: &str, q: &str, r: bool| #[trigger]
            call_ensures(starts_with, (s, q), r) && q@ == p && s@ == p + tail ==> r,
        forall|s: &str, q: &str, r: bool| #[trigger]
            call_ensures(ends_with, (s, q), r) && q@ == p && s@ == head + p ==> r,
        forall|s: &str, q: &str, r: bool| #[trigger]
            call_ensures(starts_with, (s, q), r) ==> (r <==> q@.is_prefix_of(s@)),
        forall|s: &str, q: &str, r: bool| #[trigger]
            call_ensures(ends_with, (s, q), r) ==> (r <==> q@.is_suffix_of(s@)),
        forall|s: &str, q: &str, r: bool| #[trigger]
            call_ensures(contains, (s, q), r) ==> (r <==> exists|i: int|
                0 <= i && i + q@.len() <= s@.len() && #[trigger] s@.subrange(i, i + q@.len())
                    == q@),
{
    let s = head + p + tail;
    assert(stands_at(s, p, head.len() as int)) by {
        assert(s.subrange(head.len() as int, (head.len() + p.len()) as int) =~= p);
    }
    assert((p + tail).take(p.len() as int) =~= p);
    assert((head + p).skip(head.len() as int) =~= p);
    assert forall|s: &str, q: &str, r: bool| #[trigger]
        call_ensures(starts_with, (s, q), r) implies (r <==> q@.is_prefix_of(s@)) by {
        if q@.len() <= s@.len() {
            assert(s@.take(q@.len() as int) =~= s@.subrange(0, q@.len() as int));
        }
    }
    assert forall|s: &str, q: &str, r: bool| #[trigger]
        call_ensures(ends_with, (s, q), r) implies (r <==> q@.is_suffix_of(s@)) by {
        if q@.len() <= s@.len() {
            assert(s@.skip(s@.len() - q@.len()) =~= s@.subrange(
                s@.len() - q@.len(),
                s@.len() as int,
            ));
        }
    }
    assert forall|s: &str, q: &str, r: bool| #[trigger]
        call_ensures(contains, (s, q), r) implies (r <==> exists|i: int|
        0 <= i && i + q@.len() <= s@.len() && #[trigger] s@.subrange(i, i + q@.len()) == q@) by {
        if r {
            let i = choose|i: int| stands_at(s@, q@, i);
            assert(s@.subrange(i, i + q@.len()) == q@);
        }
        if exists|i: int|
            0 <= i && i + q@.len() <= s@.len() && #[trigger] s@.subrange(i, i + q@.len()) == q@ {
            let i = choose|i: int|
                0 <= i && i + q@.len() <= s@.len() && #[trigger] s@.subrange(i, i + q@.len()) == q@;
            assert(stands_at(s@, q@, i));
        }
    }
}

/// Lowering changes the letters `A` to `Z`, to the small ones, and nothing else.
pub proof fn lowering_changes_capitals()
    ensures
        forall|s: &str, r: String| #[trigger]
            call_ensures(to_ascii_lowercase, (s,), r) ==> {
                &&& r@.len() == s@.len()
                &&& forall|k: int|
                    0 <= k < r@.len() && 'A' <= s@[k] && s@[k] <= 'Z' ==> (#[trigger] r@[k]) as int
                        == s@[k] as int + 32
                &&& forall|k: int|
                    0 <= k < r@.len() && !('A' <= s@[k] && s@[k] <= 'Z') ==> #[trigger] r@[k]
                        == s@[k]
            },
{
}

/// Numbers are written in decimal and read back as they were, up to what there is room for.
pub proof fn written_numbers_are_read_back()
    ensures
        forall|n: u64, s: String, t: &str, max: u64, r: Option<u64>|
            #![trigger call_ensures(number, (n,), s), call_ensures(parse_bounded, (t, max), r)]
            call_ensures(number, (n,), s) && call_ensures(parse_bounded, (t, max), r) && t@ == s@
                ==> (if n <= max {
                r == Some(n)
            } else {
                r is None
            }),
        forall|n: u64, width: usize, s: String| #[trigger]
            call_ensures(number_filled, (n, width), s) ==> s@.len() >= width && digits_value(s@)
                == n,
        forall|n: u128, s: String| #[trigger]
            call_ensures(number_wide, (n,), s) ==> digits_value(s@) == n,
        forall|s: String, n: u64, t: &str, r: Option<u32>|
            #![trigger call_ensures(number, (n,), s), call_ensures(parse_u32, (t,), r)]
            call_ensures(number, (n,), s) && call_ensures(parse_u32, (t,), r) && t@ == s@ ==> (if n
                <= u32::MAX {
                r == Some(n as u32)
            } else {
                r is None
            }),
{
    assert forall|n: u64, s: String, t: &str, max: u64, r: Option<u64>|
        #![trigger call_ensures(number, (n,), s), call_ensures(parse_bounded, (t, max), r)]
        call_ensures(number, (n,), s) && call_ensures(parse_bounded, (t, max), r) && t@
            == s@ implies (if n <= max {
        r == Some(n)
    } else {
        r is None
    }) by {
        numbers_round_trip(n as nat, 0, max as nat);
    }
    assert forall|s: String, n: u64, t: &str, r: Option<u32>|
        #![trigger call_ensures(number, (n,), s), call_ensures(parse_u32, (t,), r)]
        call_ensures(number, (n,), s) && call_ensures(parse_u32, (t,), r) && t@ == s@ implies (if n
        <= u32::MAX {
        r == Some(n as u32)
    } else {
        r is None
    }) by {
        numbers_round_trip(n as nat, 0, u32::MAX as nat);
    }
    assert forall|n: u64, width: usize, s: String| #[trigger]
        call_ensures(number_filled, (n, width), s) implies s@.len() >= width && digits_value(s@)
        == n by {
        numbers_round_trip(n as nat, width as nat, 0);
    }
    assert forall|n: u128, s: String| #[trigger] call_ensures(number_wide, (n,), s) implies
        digits_value(s@) == n by {
        numbers_round_trip(n as nat, 0, 0);
    }
}

/// Words that are joined with a space between them come apart again, and white space is where
/// they do.
pub proof fn joined_words_come_apart(parts: Seq<Seq<char>>)
    requires
        forall|i: int| 0 <= i < parts.len() ==> (#[trigger] parts[i]).len() > 0,
        forall|i: int, k: int|
            0 <= i < parts.len() && 0 <= k < parts[i].len() ==> !is_space(#[trigger] parts[i][k]),
    ensures
        forall|v: &Vec<String>, sep: &str, s: String, t: &str, r: Vec<String>|
            #![trigger call_ensures(join, (v, sep), s), call_ensures(split_whitespace, (t,), r)]
            call_ensures(join, (v, sep), s) && call_ensures(split_whitespace, (t,), r) && t@ == s@
                && sep@ == seq![' '] && views(v@) == parts ==> views(r@) == parts,
        forall|t: &str, r: bool| #[trigger]
            call_ensures(ends_with_whitespace, (t,), r) ==> (r <==> t@.len() > 0 && is_space(
                t@.last(),
            )),
        forall|a: &str, b: &str, r: bool| #[trigger]
            call_ensures(text_eq, (a, b), r) ==> (r <==> a@ == b@),
        forall|c: char, r: bool| #[trigger]
            call_ensures(is_whitespace, (c,), r) && (c == ' ' || c == '\t' || c == '\n' || c == '\r')
                ==> r,
        forall|c: char, r: bool| #[trigger]
            call_ensures(is_whitespace, (c,), r) && '!' <= c && c <= '~' ==> !r,
{
    joined_words_split(parts);
}

} // verus!
