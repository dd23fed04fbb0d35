//! Key-value parameters from a command line or a URL, behind one lookup.
//!
//! The syntax is `key=value` on both: `--seed=42 --shapes=a,b` on a command line,
//! `?seed=42&shapes=a,b` in a query string, `#seed=42` in a hash. A value may list several
//! items, separated by commas. Of two values for one key the later counts.

use vstd::prelude::*;

use crate::assoc;
use crate::text;
use crate::text::{chars_of, position_of, starts_with, string_of, text_eq};

verus! {

// ---------------------------------------------------------------------------
// Splitting
// ---------------------------------------------------------------------------

/// The pieces of `s` between the occurrences of `sep`. There is always at least one.
pub open spec fn pieces(s: Seq<char>, sep: char) -> Seq<Seq<char>>
    decreases s.len(),
    via pieces_shrink
{
    let i = text::first_at(s, sep);
    if i >= s.len() {
        seq![s]
    } else {
        seq![s.take(i)] + pieces(s.skip(i + 1), sep)
    }
}

#[via_fn]
proof fn pieces_shrink(s: Seq<char>, sep: char) {
    text::first_at_is_first(s, sep);
}

/// What stands before the first `sep` in `s`, and what stands behind it.
pub open spec fn cut(s: Seq<char>, sep: char) -> Option<(Seq<char>, Seq<char>)> {
    let i = text::first_at(s, sep);
    if i >= s.len() {
        None
    } else {
        Some((s.take(i), s.skip(i + 1)))
    }
}

/// The `key=value` pair that `s` is, if it is one with a key.
pub open spec fn key_value(s: Seq<char>) -> Option<(Seq<char>, Seq<char>)> {
    match cut(s, '=') {
        Some((k, v)) if k.len() > 0 => Some((k, v)),
        _ => None,
    }
}

fn split_key_value(s: &str) -> (r: Option<(String, String)>)
    ensures
        match r {
            Some((k, v)) => key_value(s@) == Some((k@, v@)),
            None => key_value(s@) is None,
        },
{
    let v = chars_of(s);
    let i: usize = position_of(&v, '=');
    if i == 0 || i >= v.len() {
        return None;
    }
    let key = string_of(&v, 0, i);
    let value = string_of(&v, i + 1, v.len());
    assert(key@ =~= s@.take(i as int));
    assert(value@ =~= s@.skip(i + 1));
    Some((key, value))
}

/// The texts of `parts` that are not empty, in order.
pub open spec fn not_empty(parts: Seq<Seq<char>>) -> Seq<Seq<char>>
    decreases parts.len(),
{
    if parts.len() == 0 {
        Seq::empty()
    } else if parts[0].len() == 0 {
        not_empty(parts.drop_first())
    } else {
        seq![parts[0]] + not_empty(parts.drop_first())
    }
}

// ---------------------------------------------------------------------------
// The parameters
// ---------------------------------------------------------------------------

/// Parsed `key=value` pairs from the host's argument surface. Each key occurs once.
pub struct Args {
    pub pairs: Vec<(String, String)>,
}

/// Pairs of texts by their characters.
pub open spec fn pair_views(s: Seq<(String, String)>) -> Seq<(Seq<char>, Seq<char>)> {
    s.map_values(|p: (String, String)| (p.0@, p.1@))
}

impl View for Args {
    type V = Map<Seq<char>, Seq<char>>;

    open spec fn view(&self) -> Map<Seq<char>, Seq<char>> {
        assoc::as_map(pair_views(self.pairs@))
    }
}

/// `m` with each pair put in, one after the other.
pub open spec fn with_pairs(
    m: Map<Seq<char>, Seq<char>>,
    pairs: Seq<(Seq<char>, Seq<char>)>,
) -> Map<Seq<char>, Seq<char>>
    decreases pairs.len(),
{
    if pairs.len() == 0 {
        m
    } else {
        with_pairs(m, pairs.drop_last()).insert(pairs.last().0, pairs.last().1)
    }
}

/// The parameter that a command-line argument gives: `--key=value`, with a key. Anything
/// else gives none.
pub open spec fn argument(arg: Seq<char>) -> Option<(Seq<char>, Seq<char>)> {
    if text::has_prefix(arg, "--"@) {
        key_value(arg.skip(2))
    } else {
        None
    }
}

/// `m` with the parameters of a command line put in.
pub open spec fn with_arguments(m: Map<Seq<char>, Seq<char>>, args: Seq<Seq<char>>) -> Map<
    Seq<char>,
    Seq<char>,
>
    decreases args.len(),
{
    if args.len() == 0 {
        m
    } else {
        let before = with_arguments(m, args.drop_last());
        match argument(args.last()) {
            Some((k, v)) => before.insert(k, v),
            None => before,
        }
    }
}

/// `s` without the `?` and `#` at its start.
pub open spec fn unmarked(s: Seq<char>) -> Seq<char>
    decreases s.len(),
{
    if s.len() > 0 && (s[0] == '?' || s[0] == '#') {
        unmarked(s.drop_first())
    } else {
        s
    }
}

/// `s` with a space for each `+`.
pub open spec fn plus_spaced(s: Seq<char>) -> Seq<char> {
    s.map_values(
        |c: char|
            if c == '+' {
                ' '
            } else {
                c
            },
    )
}

/// `m` with the parameters of the query segments put in. A segment without `=`, or
/// without a key, is skipped.
pub open spec fn with_segments(m: Map<Seq<char>, Seq<char>>, segments: Seq<Seq<char>>) -> Map<
    Seq<char>,
    Seq<char>,
>
    decreases segments.len(),
{
    if segments.len() == 0 {
        m
    } else {
        let first = match key_value(segments[0]) {
            Some((k, v)) => m.insert(k, plus_spaced(v)),
            None => m,
        };
        with_segments(first, segments.drop_first())
    }
}

/// `m` with the parameters of a query string or a hash put in.
pub open spec fn with_query(m: Map<Seq<char>, Seq<char>>, raw: Seq<char>) -> Map<
    Seq<char>,
    Seq<char>,
> {
    with_segments(m, pieces(unmarked(raw), '&'))
}

fn spaced(s: &str) -> (r: String)
    ensures
        r@ == plus_spaced(s@),
{
    let n: usize = s.unicode_len();
    let mut out = String::new();
    let mut i: usize = 0;
    assert(plus_spaced(s@.take(0)) =~= Seq::empty());
    while i < n
        invariant
            i <= n == s@.len(),
            out@ == plus_spaced(s@.take(i as int)),
        decreases n - i,
    {
        let c = s.get_char(i);
        out.push(
            if c == '+' {
                ' '
            } else {
                c
            },
        );
        i += 1;
        assert(out@ =~= plus_spaced(s@.take(i as int)));
    }
    assert(s@.take(n as int) =~= s@);
    out
}

/// The value of `s` as a `T`, by `str::parse`. What it is, is up to the `FromStr` of `T`.
#[verifier::external_body]
fn parse_text<T: std::str::FromStr>(s: &str) -> (r: Option<T>) {
    s.parse().ok()
}

/// May `text`, read as a `T` by `str::parse`, give `r`?
pub closed spec fn reads_as<T: std::str::FromStr>(text: Seq<char>, r: Option<T>) -> bool {
    exists|s: &str| s@ == text && #[trigger] call_ensures(parse_text::<T>, (s,), r)
}

impl Args {
    /// Each key stands once.
    pub open spec fn wf(&self) -> bool {
        assoc::distinct_keys(pair_views(self.pairs@))
    }

    /// No parameters.
    pub fn new() -> (r: Args)
        ensures
            r.wf(),
            r@ == Map::<Seq<char>, Seq<char>>::empty(),
    {
        let r = Args { pairs: Vec::new() };
        assert(r@ =~= Map::empty());
        r
    }

    fn find(&self, key: &str) -> (r: Option<usize>)
        requires
            self.wf(),
        ensures
            match r {
                Some(i) => i < self.pairs@.len() && self.pairs@[i as int].0@ == key@
                    && self@.dom().contains(key@) && self@[key@] == self.pairs@[i as int].1@,
                None => !self@.dom().contains(key@) && !assoc::has_key(
                    pair_views(self.pairs@),
                    key@,
                ),
            },
    {
        let ghost s = pair_views(self.pairs@);
        let mut i: usize = 0;
        while i < self.pairs.len()
            invariant
                i <= self.pairs.len(),
                s == pair_views(self.pairs@),
                assoc::distinct_keys(s),
                self@ == assoc::as_map(s),
                forall|j: int| 0 <= j < i ==> (#[trigger] s[j]).0 != key@,
            decreases self.pairs.len() - i,
        {
            assert(s[i as int] == (self.pairs@[i as int].0@, self.pairs@[i as int].1@));
            if text_eq(self.pairs[i].0.as_str(), key) {
                proof {
                    assoc::as_map_at(s, i as int);
                }
                return Some(i);
            }
            i += 1;
        }
        None
    }

    /// Put in a parameter; one of the same key gives way.
    pub fn insert(&mut self, key: String, value: String)
        requires
            old(self).wf(),
        ensures
            final(self).wf(),
            final(self)@ == old(self)@.insert(key@, value@),
    {
        let ghost s = pair_views(self.pairs@);
        match self.find(key.as_str()) {
            Some(i) => {
                let ghost v = value@;
                let ghost k = key@;
                self.pairs.set(i, (key, value));
                proof {
                    assoc::as_map_update(s, i as int, v);
                    assert(s[i as int].0 == k);
                    assert(pair_views(self.pairs@) =~= s.update(i as int, (k, v)));
                }
            },
            None => {
                let ghost v = value@;
                let ghost k = key@;
                self.pairs.push((key, value));
                proof {
                    assoc::as_map_insert(s, s.len() as int, k, v);
                    assert(pair_views(self.pairs@) =~= s.insert(s.len() as int, (k, v)));
                }
            },
        }
    }

    /// Parse a command line without its program name: `--key=value` each. What is not of
    /// that shape is ignored, since a parent harness may add arguments of its own.
    pub fn from_arguments(args: &Vec<String>) -> (r: Args)
        ensures
            r.wf(),
            r@ == with_arguments(Map::empty(), text::views(args@)),
    {
        let ghost words = text::views(args@);
        let mut out = Args::new();
        let mut i: usize = 0;
        assert(words.take(0) =~= Seq::empty());
        while i < args.len()
            invariant
                i <= args.len(),
                words == text::views(args@),
                out.wf(),
                out@ == with_arguments(Map::empty(), words.take(i as int)),
            decreases args.len() - i,
        {
            let arg = args[i].as_str();
            assert(words.take(i + 1).drop_last() =~= words.take(i as int));
            assert(words.take(i + 1).last() == arg@);
            if starts_with(arg, "--") {
                proof {
                    reveal_strlit("--");
                }
                let n: usize = arg.unicode_len();
                let stripped = arg.substring_char(2, n);
                assert(stripped@ =~= arg@.skip(2));
                match split_key_value(stripped) {
                    Some((k, v)) => {
                        out.insert(k, v);
                    },
                    None => {},
                }
            }
            i += 1;
        }
        assert(words.take(args.len() as int) =~= words);
        out
    }

    /// Parse the query string and the hash of a location. On a key collision the hash
    /// takes precedence: it is more deliberately set than the page's address.
    pub fn from_location(search: &str, hash: &str) -> (r: Args)
        ensures
            r.wf(),
            r@ == with_query(with_query(Map::empty(), search@), hash@),
    {
        let mut out = Args::new();
        out.parse_query_into(search);
        out.parse_query_into(hash);
        out
    }

    /// Parse a query-string-shaped fragment (`?a=1&b=2` or `#a=1`) into these parameters.
    /// Leading `?` and `#` are stripped, segments end at `&`, and each is split at its
    /// first `=`. A `+` in a value stands for a space.
    pub fn parse_query_into(&mut self, raw: &str)
        requires
            old(self).wf(),
        ensures
            final(self).wf(),
            final(self)@ == with_query(old(self)@, raw@),
    {
        let v = chars_of(raw);
        let mut at: usize = 0;
        assert(v@.skip(0) =~= v@);
        while at < v.len() && (v[at] == '?' || v[at] == '#')
            invariant
                at <= v.len(),
                unmarked(raw@) == unmarked(v@.skip(at as int)),
            decreases v.len() - at,
        {
            assert(v@.skip(at as int).drop_first() =~= v@.skip(at + 1));
            at += 1;
        }
        let ghost goal = with_query(old(self)@, raw@);
        let mut more = true;
        while more
            invariant
                at <= v.len(),
                self.wf(),
                more ==> goal == with_segments(self@, pieces(v@.skip(at as int), '&')),
                !more ==> goal == self@,
            decreases v.len() - at + (if more { 1int } else { 0 }),
        {
            let ghost rest = v@.skip(at as int);
            let mut end: usize = at;
            assert(rest.skip(0) =~= rest);
            while end < v.len() && v[end] != '&'
                invariant
                    at <= end <= v.len(),
                    rest == v@.skip(at as int),
                    text::first_at(rest, '&') == end - at + text::first_at(
                        rest.skip(end - at),
                        '&',
                    ),
                decreases v.len() - end,
            {
                assert(rest.skip(end - at).drop_first() =~= rest.skip(end + 1 - at));
                end += 1;
            }
            let segment = string_of(&v, at, end);
            let ghost ps = pieces(rest, '&');
            let ghost before = self@;
            proof {
                if end < v.len() {
                    assert(segment@ =~= rest.take(end - at));
                    assert(rest.skip(end - at + 1) =~= v@.skip(end + 1));
                    assert(ps.drop_first() =~= pieces(v@.skip(end + 1), '&'));
                } else {
                    assert(segment@ =~= rest);
                    assert(ps.drop_first() =~= Seq::empty());
                }
                assert(ps[0] == segment@);
            }
            match split_key_value(segment.as_str()) {
                Some((key, value)) => {
                    let decoded = spaced(value.as_str());
                    self.insert(key, decoded);
                },
                None => {},
            }
            if end < v.len() {
                at = end + 1;
            } else {
                more = false;
                assert(with_segments(self@, ps.drop_first()) == self@);
            }
        }
    }

    /// Construct from explicit pairs. Of two with one key the later counts.
    pub fn from_pairs(pairs: &[(&str, &str)]) -> (r: Args)
        ensures
            r.wf(),
            r@ == with_pairs(
                Map::empty(),
                pairs@.map_values(|p: (&str, &str)| (p.0@, p.1@)),
            ),
    {
        let ghost s = pairs@.map_values(|p: (&str, &str)| (p.0@, p.1@));
        let mut out = Args::new();
        let mut i: usize = 0;
        assert(s.take(0) =~= Seq::empty());
        while i < pairs.len()
            invariant
                i <= pairs.len(),
                s == pairs@.map_values(|p: (&str, &str)| (p.0@, p.1@)),
                out.wf(),
                out@ == with_pairs(Map::empty(), s.take(i as int)),
            decreases pairs.len() - i,
        {
            let (k, v) = pairs[i];
            out.insert(k.to_owned(), v.to_owned());
            assert(s.take(i + 1).drop_last() =~= s.take(i as int));
            assert(s.take(i + 1).last() == (k@, v@));
            i += 1;
        }
        assert(s.take(pairs.len() as int) =~= s);
        out
    }

    /// Look up a single value by key. `None` if the key was not provided.
    pub fn get(&self, key: &str) -> (r: Option<&str>)
        requires
            self.wf(),
        ensures
            match r {
                Some(v) => self@.dom().contains(key@) && v@ == self@[key@],
                None => !self@.dom().contains(key@),
            },
    {
        match self.find(key) {
            Some(i) => Some(self.pairs[i].1.as_str()),
            None => None,
        }
    }

    /// Look up a value and parse it as `T`. `None` if the key is missing or the value does
    /// not parse; tell these apart with `get`. What a value parses to is the `FromStr` of
    /// `T` alone.
    pub fn parse<T: std::str::FromStr>(&self, key: &str) -> (r: Option<T>)
        requires
            self.wf(),
        ensures
            self@.dom().contains(key@) ==> reads_as(self@[key@], r),
            !self@.dom().contains(key@) ==> r is None,
    {
        match self.get(key) {
            Some(v) => parse_text(v),
            None => None,
        }
    }

    /// The items of a value that lists several, separated by commas. Empty items are
    /// dropped; a missing key gives none.
    pub fn get_many<'a>(&'a self, key: &str) -> (r: Vec<&'a str>)
        requires
            self.wf(),
        ensures
            text::str_views(r@) == (if self@.dom().contains(key@) {
                not_empty(pieces(self@[key@], ','))
            } else {
                Seq::empty()
            }),
    {
        match self.get(key) {
            Some(v) => split_items(v),
            None => {
                let r: Vec<&'a str> = Vec::new();
                assert(text::str_views(r@) =~= Seq::empty());
                r
            },
        }
    }

    /// All parameters, each once, in no order to rely on.
    pub fn iter(&self) -> (r: Vec<(&str, &str)>)
        requires
            self.wf(),
        ensures
            assoc::distinct_keys(r@.map_values(|p: (&str, &str)| (p.0@, p.1@))),
            assoc::as_map(r@.map_values(|p: (&str, &str)| (p.0@, p.1@))) == self@,
    {
        let mut out: Vec<(&str, &str)> = Vec::new();
        let mut i: usize = 0;
        while i < self.pairs.len()
            invariant
                i <= self.pairs.len(),
                out@.len() == i,
                forall|j: int|
                    0 <= j < i ==> (#[trigger] out@[j]).0@ == self.pairs@[j].0@ && out@[j].1@
                        == self.pairs@[j].1@,
            decreases self.pairs.len() - i,
        {
            out.push((self.pairs[i].0.as_str(), self.pairs[i].1.as_str()));
            i += 1;
        }
        assert(out@.map_values(|p: (&str, &str)| (p.0@, p.1@)) =~= pair_views(self.pairs@));
        out
    }
}

/// The items of `s` between commas that are not empty.
fn split_items<'a>(s: &'a str) -> (r: Vec<&'a str>)
    ensures
        text::str_views(r@) == not_empty(pieces(s@, ',')),
{
    let n: usize = s.unicode_len();
    let mut out: Vec<&'a str> = Vec::new();
    let mut at: usize = 0;
    let mut more = true;
    let ghost goal = not_empty(pieces(s@, ','));
    assert(s@.skip(0) =~= s@);
    assert(text::str_views(out@) =~= Seq::empty());
    assert(text::str_views(out@) + goal =~= goal);
    while more
        invariant
            at <= n == s@.len(),
            more ==> goal == text::str_views(out@) + not_empty(pieces(s@.skip(at as int), ',')),
            !more ==> goal == text::str_views(out@),
        decreases n - at + (if more { 1int } else { 0 }),
    {
        let ghost rest = s@.skip(at as int);
        let mut end: usize = at;
        assert(rest.skip(0) =~= rest);
        while end < n && s.get_char(end) != ','
            invariant
                at <= end <= n == s@.len(),
                rest == s@.skip(at as int),
                text::first_at(rest, ',') == end - at + text::first_at(rest.skip(end - at), ','),
            decreases n - end,
        {
            assert(rest.skip(end - at).drop_first() =~= rest.skip(end + 1 - at));
            end += 1;
        }
        let item = s.substring_char(at, end);
        let ghost ps = pieces(rest, ',');
        let ghost before = out@;
        proof {
            if end < n {
                assert(item@ =~= rest.take(end - at));
                assert(rest.skip(end - at + 1) =~= s@.skip(end + 1));
                assert(ps.drop_first() =~= pieces(s@.skip(end + 1), ','));
            } else {
                assert(item@ =~= rest);
                assert(ps.drop_first() =~= Seq::empty());
            }
            assert(ps[0] == item@);
        }
        if end > at {
            out.push(item);
            assert(text::str_views(out@) =~= text::str_views(before) + seq![item@]);
        }
        if end < n {
            at = end + 1;
            assert(text::str_views(out@) + not_empty(ps.drop_first()) =~= text::str_views(before)
                + not_empty(ps));
        } else {
            more = false;
            assert(text::str_views(out@) =~= text::str_views(before) + not_empty(ps));
        }
    }
    out
}

/// A later argument for a key overrides an earlier one, and leaves the other keys alone.
pub proof fn later_argument_wins(
    args: Seq<Seq<char>>,
    arg: Seq<char>,
    key: Seq<char>,
    value: Seq<char>,
)
    requires
        argument(arg) == Some((key, value)),
    ensures
        with_arguments(Map::empty(), args.push(arg)) == with_arguments(Map::empty(), args).insert(
            key,
            value,
        ),
{
    assert(args.push(arg).drop_last() =~= args);
}

/// A key that the hash sets has the hash's value, whatever the query string says of it; a
/// key that it does not set has the query string's.
pub proof fn hash_takes_precedence(search: Seq<char>, hash: Seq<char>, key: Seq<char>)
    ensures
        with_query(Map::empty(), hash).dom().contains(key) ==> with_query(
            with_query(Map::empty(), search),
            hash,
        ).dom().contains(key) && with_query(with_query(Map::empty(), search), hash)[key]
            == with_query(Map::empty(), hash)[key],
        !with_query(Map::empty(), hash).dom().contains(key) ==> (with_query(
            with_query(Map::empty(), search),
            hash,
        ).dom().contains(key) <==> with_query(Map::empty(), search).dom().contains(key)),
        !with_query(Map::empty(), hash).dom().contains(key) && with_query(
            Map::empty(),
            search,
        ).dom().contains(key) ==> with_query(with_query(Map::empty(), search), hash)[key]
            == with_query(Map::empty(), search)[key],
{
    let base = with_query(Map::empty(), search);
    assert(base.union_prefer_right(Map::empty()) =~= base);
    segments_over(
        base,
        Map::empty(),
        pieces(unmarked(hash), '&'),
    );
    assert(with_query(with_query(Map::empty(), search), hash) =~= with_query(
        Map::empty(),
        search,
    ).union_prefer_right(with_query(Map::empty(), hash)));
}

proof fn segments_over(
    base: Map<Seq<char>, Seq<char>>,
    m: Map<Seq<char>, Seq<char>>,
    segments: Seq<Seq<char>>,
)
    ensures
        with_segments(base.union_prefer_right(m), segments) == base.union_prefer_right(
            with_segments(m, segments),
        ),
    decreases segments.len(),
{
    if segments.len() > 0 {
        match key_value(segments[0]) {
            Some((k, v)) => {
                let n = m.insert(k, plus_spaced(v));
                segments_over(base, n, segments.drop_first());
                assert(base.union_prefer_right(n) =~= base.union_prefer_right(m).insert(
                    k,
                    plus_spaced(v),
                ));
            },
            None => {
                segments_over(base, m, segments.drop_first());
            },
        }
    }
}

/// Where a separator stands between two texts, the pieces of both are those of the one and then
/// those of the other.
proof fn pieces_split(a: Seq<char>, sep: char, b: Seq<char>)
    ensures
        pieces(a + seq![sep] + b, sep) == pieces(a, sep) + pieces(b, sep),
    decreases a.len(),
{
    let s = a + seq![sep] + b;
    text::first_at_is_first(s, sep);
    text::first_at_is_first(a, sep);
    let i = text::first_at(s, sep);
    assert(s[a.len() as int] == sep);
    if a.contains(sep) {
        let j = text::first_at(a, sep);
        assert(s[j] == sep);
        assert(i == j) by {
            if i < j {
                assert(a[i] == s[i]);
            }
        }
        let t = a.skip(i + 1);
        pieces_split(t, sep, b);
        assert(s.skip(i + 1) =~= t + seq![sep] + b);
        assert(s.take(i) =~= a.take(i));
        assert(seq![a.take(i)] + (pieces(t, sep) + pieces(b, sep)) =~= seq![a.take(i)] + pieces(
            t,
            sep,
        ) + pieces(b, sep));
    } else {
        assert forall|j: int| 0 <= j < a.len() implies s[j] != sep by {
            assert(a.contains(a[j]));
        }
        assert(i == a.len());
        assert(s.take(i) =~= a);
        assert(s.skip(i + 1) =~= b);
    }
}

/// Does the text hold no such character?
pub open spec fn free_of(s: Seq<char>, c: char) -> bool {
    !s.contains(c)
}

proof fn piece_alone(s: Seq<char>, sep: char)
    requires
        free_of(s, sep),
    ensures
        pieces(s, sep) == seq![s],
{
    text::first_at_is_first(s, sep);
}

proof fn joined_items_come_apart(items: Seq<Seq<char>>, sep: char)
    requires
        items.len() > 0,
        forall|i: int| 0 <= i < items.len() ==> free_of(#[trigger] items[i], sep),
    ensures
        pieces(text::joined(items, seq![sep]), sep) == items,
    decreases items.len(),
{
    if items.len() == 1 {
        assert(free_of(items[0], sep));
        piece_alone(items[0], sep);
        assert(items =~= seq![items[0]]);
    } else {
        let d = items.drop_last();
        assert forall|i: int| 0 <= i < d.len() implies free_of(#[trigger] d[i], sep) by {
            assert(free_of(items[i], sep));
        }
        joined_items_come_apart(d, sep);
        assert(free_of(items[items.len() - 1], sep));
        piece_alone(items.last(), sep);
        pieces_split(text::joined(d, seq![sep]), sep, items.last());
        assert(d + seq![items.last()] =~= items);
    }
}

proof fn nothing_empty_stays(items: Seq<Seq<char>>)
    requires
        forall|i: int| 0 <= i < items.len() ==> (#[trigger] items[i]).len() > 0,
    ensures
        not_empty(items) == items,
    decreases items.len(),
{
    if items.len() > 0 {
        let d = items.drop_first();
        assert forall|i: int| 0 <= i < d.len() implies (#[trigger] d[i]).len() > 0 by {
            assert(d[i] == items[i + 1]);
        }
        assert(items[0].len() > 0);
        nothing_empty_stays(d);
        assert(seq![items[0]] + d =~= items);
    }
}

/// A list is read as it was written: items that are given with commas between them come out,
/// each once and in order.
pub proof fn lists_are_read_as_written(items: Seq<Seq<char>>)
    requires
        items.len() > 0,
        forall|i: int|
            0 <= i < items.len() ==> free_of(#[trigger] items[i], ',') && items[i].len() > 0,
    ensures
        forall|a: &Args, key: &str, r: Vec<&str>| #[trigger]
            call_ensures(Args::get_many, (a, key), r) && a@.dom().contains(key@) && a@[key@]
                == text::joined(items, seq![',']) ==> text::str_views(r@) == items,
        forall|a: &Args, key: &str, r: Vec<&str>| #[trigger]
            call_ensures(Args::get_many, (a, key), r) && !a@.dom().contains(key@) ==> r@.len() == 0,
{
    joined_items_come_apart(items, ',');
    nothing_empty_stays(items);
    assert forall|a: &Args, key: &str, r: Vec<&str>| #[trigger]
        call_ensures(Args::get_many, (a, key), r) && !a@.dom().contains(key@) implies r@.len()
        == 0 by {
        assert(text::str_views(r@).len() == r@.len());
    }
}

proof fn pair_is_cut(key: Seq<char>, value: Seq<char>)
    requires
        key.len() > 0,
        free_of(key, '='),
    ensures
        key_value(key + seq!['='] + value) == Some((key, value)),
{
    let s = key + seq!['='] + value;
    text::first_at_is_first(s, '=');
    assert(s[key.len() as int] == '=');
    assert forall|j: int| 0 <= j < key.len() implies s[j] != '=' by {
        assert(key.contains(key[j]));
    }
    assert(s.take(key.len() as int) =~= key);
    assert(s.skip(key.len() as int + 1) =~= value);
}

/// An argument `--key=value` gives the key that value, whatever it had before and whatever the
/// value holds; an argument of any other form gives nothing, and no key loses its value.
pub proof fn arguments_give_keys_their_values(key: Seq<char>, value: Seq<char>, other: Seq<char>)
    requires
        key.len() > 0,
        free_of(key, '='),
        !"--"@.is_prefix_of(other) || free_of(other, '='),
    ensures
        forall|few: &Vec<String>, before: Args, more: &Vec<String>, after: Args|
            #![trigger call_ensures(Args::from_arguments, (few,), before), call_ensures(
                Args::from_arguments,
                (more,),
                after,
            )]
            call_ensures(Args::from_arguments, (few,), before) && call_ensures(
                Args::from_arguments,
                (more,),
                after,
            ) ==> {
                &&& text::views(more@) == text::views(few@).push("--"@ + key + seq!['='] + value)
                    ==> after@ == before@.insert(key, value)
                &&& text::views(more@) == text::views(few@).push(other) ==> after@ == before@
            },
        forall|none: &Vec<String>, r: Args| #[trigger]
            call_ensures(Args::from_arguments, (none,), r) && none@.len() == 0 ==> r@
                == Map::<Seq<char>, Seq<char>>::empty(),
{
    reveal_strlit("--");
    let arg = "--"@ + key + seq!['='] + value;
    assert(arg.take(2) =~= "--"@);
    assert(arg.skip(2) =~= key + seq!['='] + value);
    pair_is_cut(key, value);
    assert(argument(other) is None) by {
        if other.len() >= 2 {
            assert(other.take(2) =~= other.subrange(0, 2));
        }
        if text::has_prefix(other, "--"@) {
            let t = other.skip(2);
            text::first_at_is_first(t, '=');
            if t.contains('=') {
                let k = choose|k: int| 0 <= k < t.len() && t[k] == '=';
                assert(other[k + 2] == '=');
            }
        }
    }
    assert forall|few: &Vec<String>, before: Args, more: &Vec<String>, after: Args|
        #![trigger call_ensures(Args::from_arguments, (few,), before), call_ensures(
            Args::from_arguments,
            (more,),
            after,
        )]
        call_ensures(Args::from_arguments, (few,), before) && call_ensures(
            Args::from_arguments,
            (more,),
            after,
        ) implies {
        &&& text::views(more@) == text::views(few@).push("--"@ + key + seq!['='] + value)
            ==> after@ == before@.insert(key, value)
        &&& text::views(more@) == text::views(few@).push(other) ==> after@ == before@
    } by {
        let a = text::views(few@);
        assert(a.push(arg).drop_last() =~= a);
        assert(a.push(other).drop_last() =~= a);
    }
}

proof fn segments_in_turn(
    m: Map<Seq<char>, Seq<char>>,
    a: Seq<Seq<char>>,
    b: Seq<Seq<char>>,
)
    ensures
        with_segments(m, a + b) == with_segments(with_segments(m, a), b),
    decreases a.len(),
{
    if a.len() == 0 {
        assert(a + b =~= b);
    } else {
        let first = match key_value(a[0]) {
            Some((k, v)) => m.insert(k, plus_spaced(v)),
            None => m,
        };
        segments_in_turn(first, a.drop_first(), b);
        assert((a + b).drop_first() =~= a.drop_first() + b);
        assert((a + b)[0] == a[0]);
    }
}

proof fn marks_end_early(a: Seq<char>, b: Seq<char>)
    ensures
        unmarked(a + seq!['&'] + b) == unmarked(a) + seq!['&'] + b,
    decreases a.len(),
{
    let s = a + seq!['&'] + b;
    if a.len() > 0 && (a[0] == '?' || a[0] == '#') {
        marks_end_early(a.drop_first(), b);
        assert(s.drop_first() =~= a.drop_first() + seq!['&'] + b);
        assert(s[0] == a[0]);
    } else if a.len() == 0 {
        assert(s[0] == '&');
        assert(unmarked(a) == a);
        assert(s =~= unmarked(a) + seq!['&'] + b);
    } else {
        assert(s[0] == a[0]);
    }
}

/// Is the text without a mark that a query string opens with?
pub open spec fn starts_unmarked(s: Seq<char>) -> bool {
    s.len() > 0 ==> s[0] != '?' && s[0] != '#'
}

/// A query string is read from front to back: what stands behind an `&` is put in behind what
/// stands before it, `key=value` gives the key that value with its pluses as spaces, and the
/// mark at the front is of no account.
pub proof fn queries_are_read_in_turn(
    a: Seq<char>,
    b: Seq<char>,
    key: Seq<char>,
    value: Seq<char>,
)
    requires
        starts_unmarked(b),
        key.len() > 0,
        starts_unmarked(key),
        free_of(key, '='),
        free_of(key, '&'),
        free_of(value, '&'),
    ensures
        forall|m: Map<Seq<char>, Seq<char>>| #[trigger]
            with_query(m, a + seq!['&'] + b) == with_query(with_query(m, a), b),
        forall|m: Map<Seq<char>, Seq<char>>| #[trigger]
            with_query(m, seq!['?'] + a) == with_query(m, a),
        forall|m: Map<Seq<char>, Seq<char>>| #[trigger]
            with_query(m, seq!['#'] + a) == with_query(m, a),
        forall|args: &mut Args, raw: &str, u: ()| #[trigger]
            call_ensures(Args::parse_query_into, (args, raw), u) && raw@ == key + seq!['='] + value
                ==> {
                let w = (*final(args))@;
                &&& w.dom().contains(key)
                &&& w[key].len() == value.len()
                &&& forall|i: int|
                    0 <= i < value.len() ==> #[trigger] w[key][i] == (if value[i] == '+' {
                        ' '
                    } else {
                        value[i]
                    })
                &&& w.remove(key) == (*args)@.remove(key)
            },
{
    marks_end_early(a, b);
    assert(unmarked(b) == b);
    pieces_split(unmarked(a), '&', b);
    assert forall|m: Map<Seq<char>, Seq<char>>| #[trigger]
        with_query(m, a + seq!['&'] + b) == with_query(with_query(m, a), b) by {
        segments_in_turn(m, pieces(unmarked(a), '&'), pieces(b, '&'));
    }
    assert((seq!['?'] + a).drop_first() =~= a);
    assert((seq!['#'] + a).drop_first() =~= a);
    let pair = key + seq!['='] + value;
    assert(unmarked(pair) == pair) by {
        assert(pair[0] == key[0]);
    }
    assert(free_of(pair, '&')) by {
        if pair.contains('&') {
            let k = choose|k: int| 0 <= k < pair.len() && pair[k] == '&';
            if k < key.len() {
                assert(key.contains(key[k]));
            } else if k > key.len() {
                assert(value.contains(value[k - key.len() - 1]));
            }
        }
    }
    piece_alone(pair, '&');
    pair_is_cut(key, value);
    assert forall|args: &mut Args, raw: &str, u: ()| #[trigger]
        call_ensures(Args::parse_query_into, (args, raw), u) && raw@ == key + seq!['=']
            + value implies {
        let w = (*final(args))@;
        &&& w.dom().contains(key)
        &&& w[key].len() == value.len()
        &&& forall|i: int|
            0 <= i < value.len() ==> #[trigger] w[key][i] == (if value[i] == '+' {
                ' '
            } else {
                value[i]
            })
        &&& w.remove(key) == (*args)@.remove(key)
    } by {
        let m = (*args)@;
        let one = seq![pair];
        assert(one.drop_first() =~= Seq::<Seq<char>>::empty());
        assert(with_segments(m.insert(key, plus_spaced(value)), one.drop_first()) == m.insert(
            key,
            plus_spaced(value),
        ));
        assert(with_segments(m, one) == m.insert(key, plus_spaced(value)));
        assert((*final(args))@ == m.insert(key, plus_spaced(value)));
        assert(m.insert(key, plus_spaced(value)).remove(key) =~= m.remove(key));
    }
}

/// A key reads as what was last put under it, and as nothing where nothing was; other keys are
/// not touched.
pub proof fn keys_read_as_they_were_set()
    ensures
        forall|a: &mut Args, key: String, value: String, u: (), after: &Args, asked: &str, r: Option<
            &str,
        >|
            #![trigger call_ensures(Args::insert, (a, key, value), u), call_ensures(
                Args::get,
                (after, asked),
                r,
            )]
            call_ensures(Args::insert, (a, key, value), u) && call_ensures(
                Args::get,
                (after, asked),
                r,
            ) && after@ == (*final(a))@ ==> {
                &&& asked@ == key@ ==> r is Some && r->0@ == value@
                &&& asked@ != key@ ==> (r is Some <==> (*a)@.dom().contains(asked@))
                &&& asked@ != key@ && r is Some ==> r->0@ == (*a)@[asked@]
            },
{
}

/// Where the page says a key in both places, what stands behind the hash counts.
pub proof fn location_is_read_in_turn()
    ensures
        forall|search: &str, hash: &str, r: Args, first: &mut Args, second: &mut Args, u: (), w: ()|
            #![trigger call_ensures(Args::from_location, (search, hash), r), call_ensures(
                Args::parse_query_into,
                (first, search),
                u,
            ), call_ensures(Args::parse_query_into, (second, hash), w)]
            call_ensures(Args::from_location, (search, hash), r) && call_ensures(
                Args::parse_query_into,
                (first, search),
                u,
            ) && call_ensures(Args::parse_query_into, (second, hash), w) && (*first)@ == Map::<
                Seq<char>,
                Seq<char>,
            >::empty() && (*second)@ == (*final(first))@ ==> r@ == (*final(second))@,
{
}

/// Pairs are put in one after the other, and the later counts.
pub proof fn pairs_are_put_in_turn(pairs: Seq<(Seq<char>, Seq<char>)>, k: Seq<char>, v: Seq<char>)
    ensures
        forall|few: &[(&str, &str)], a: Args, more: &[(&str, &str)], b: Args|
            #![trigger call_ensures(Args::from_pairs, (few,), a), call_ensures(
                Args::from_pairs,
                (more,),
                b,
            )]
            call_ensures(Args::from_pairs, (few,), a) && call_ensures(Args::from_pairs, (more,), b)
                && few@.map_values(|p: (&str, &str)| (p.0@, p.1@)) == pairs && more@.map_values(
                |p: (&str, &str)| (p.0@, p.1@),
            ) == pairs.push((k, v)) ==> b@ == a@.insert(k, v),
        forall|none: &[(&str, &str)], r: Args| #[trigger]
            call_ensures(Args::from_pairs, (none,), r) && none@.len() == 0 ==> r@ == Map::<
                Seq<char>,
                Seq<char>,
            >::empty(),
{
    assert(pairs.push((k, v)).drop_last() =~= pairs);
}

} // verus!
