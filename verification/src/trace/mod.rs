//! Per-section frame timings in the console, and the always-on performance readout.
//!
//! The timings are collected elsewhere; here they are laid out. Times are in nanoseconds.

use vstd::prelude::*;

use crate::console::line::{ConsoleWriter, LineView};
use crate::log;
use crate::quotient;
use crate::quotient::{as_double, show_quotient};
use crate::text;
use crate::text::{number, pad, pad_left, parse_bounded, text_eq};

pub mod perf;

use crate::trace::perf::SectionTime;

verus! {

/// Rolling-window size, in frames, until `trace cap` sets another.
pub const DEFAULT_CAPACITY: usize = 120;

// ---------------------------------------------------------------------------
// Times as text
// ---------------------------------------------------------------------------

/// The unit in which a time is shown.
#[derive(Copy, Clone, Debug, PartialEq, Eq, Structural)]
pub enum TimeUnit {
    Nanos,
    Micros,
    Millis,
    Seconds,
}

impl TimeUnit {
    pub open spec fn spec_of(ns: nat) -> TimeUnit {
        if ns < 1_000 {
            TimeUnit::Nanos
        } else if ns < 1_000_000 {
            TimeUnit::Micros
        } else if ns < 1_000_000_000 {
            TimeUnit::Millis
        } else {
            TimeUnit::Seconds
        }
    }

    pub open spec fn spec_suffix(self) -> Seq<char> {
        match self {
            TimeUnit::Nanos => "ns"@,
            TimeUnit::Micros => "us"@,
            TimeUnit::Millis => "ms"@,
            TimeUnit::Seconds => "s"@,
        }
    }

    pub open spec fn spec_nanos(self) -> nat {
        match self {
            TimeUnit::Nanos => 1,
            TimeUnit::Micros => 1_000,
            TimeUnit::Millis => 1_000_000,
            TimeUnit::Seconds => 1_000_000_000,
        }
    }

    pub open spec fn spec_places(self) -> nat {
        match self {
            TimeUnit::Nanos => 0,
            TimeUnit::Micros => 1,
            TimeUnit::Millis => 2,
            TimeUnit::Seconds => 2,
        }
    }

    /// The largest unit of which `ns` is at least one: nanoseconds below a microsecond,
    /// microseconds below a millisecond, milliseconds below a second, else seconds.
    pub fn of(ns: u64) -> (r: TimeUnit)
        ensures
            r == TimeUnit::spec_of(ns as nat),
    {
        if ns < 1_000 {
            TimeUnit::Nanos
        } else if ns < 1_000_000 {
            TimeUnit::Micros
        } else if ns < 1_000_000_000 {
            TimeUnit::Millis
        } else {
            TimeUnit::Seconds
        }
    }

    pub fn suffix(self) -> (r: &'static str)
        ensures
            r@ == self.spec_suffix(),
    {
        match self {
            TimeUnit::Nanos => "ns",
            TimeUnit::Micros => "us",
            TimeUnit::Millis => "ms",
            TimeUnit::Seconds => "s",
        }
    }

    /// How many nanoseconds one of this unit is.
    pub fn nanos(self) -> (r: u64)
        ensures
            r == self.spec_nanos(),
    {
        match self {
            TimeUnit::Nanos => 1,
            TimeUnit::Micros => 1_000,
            TimeUnit::Millis => 1_000_000,
            TimeUnit::Seconds => 1_000_000_000,
        }
    }

    /// How many decimal places a time in this unit is shown with.
    pub fn places(self) -> (r: usize)
        ensures
            r == self.spec_places(),
    {
        match self {
            TimeUnit::Nanos => 0,
            TimeUnit::Micros => 1,
            TimeUnit::Millis => 2,
            TimeUnit::Seconds => 2,
        }
    }
}

/// A time as it is shown: in its unit, with the unit's places, as double-precision division
/// gives it.
pub open spec fn time_text(ns: nat) -> Seq<char> {
    let unit = TimeUnit::spec_of(ns);
    (if unit is Nanos {
        text::decimal(ns)
    } else {
        quotient::quotient_text(quotient::to_double(ns), unit.spec_nanos(), unit.spec_places())
    }) + unit.spec_suffix()
}

/// A compact human-readable time.
pub fn fmt_dur(ns: u64) -> (r: String)
    ensures
        r@ == time_text(ns as nat),
{
    let unit = TimeUnit::of(ns);
    let mut s = if ns < 1_000 {
        number(ns)
    } else {
        show_quotient(as_double(ns as u128), unit.nanos() as u128, unit.places())
    };
    s.append(unit.suffix());
    s
}

/// `s`, or its first `max - 1` characters and a `~` if it is longer than `max`.
pub open spec fn truncated(s: Seq<char>, max: nat) -> Seq<char> {
    if s.len() <= max {
        s
    } else {
        s.take(max - 1).push('~')
    }
}

/// Cut a section name to a column of `max` characters.
pub fn truncate(s: &str, max: usize) -> (r: String)
    requires
        max >= 1 || s@.len() == 0,
    ensures
        r@ == truncated(s@, max as nat),
        r@.len() <= max,
{
    let n: usize = s.unicode_len();
    if n <= max {
        s.to_owned()
    } else {
        let mut out = s.substring_char(0, max - 1).to_owned();
        assert(out@ =~= s@.take(max - 1));
        out.push('~');
        out
    }
}

// ---------------------------------------------------------------------------
// The summary
// ---------------------------------------------------------------------------

/// What the rolling window says of one section.
pub struct SectionStats {
    pub name: String,
    pub samples: u64,
    pub mean: u64,
    pub p50: u64,
    pub p95: u64,
    pub p99: u64,
    pub max: u64,
}

/// Seven columns of the summary table.
pub open spec fn table_row(
    name: Seq<char>,
    n: Seq<char>,
    mean: Seq<char>,
    p50: Seq<char>,
    p95: Seq<char>,
    p99: Seq<char>,
    max: Seq<char>,
) -> Seq<char> {
    "  "@ + text::padded(name, 18) + " "@ + text::padded_left(n, 6) + " "@ + text::padded_left(
        mean,
        8,
    ) + " "@ + text::padded_left(p50, 8) + " "@ + text::padded_left(p95, 8) + " "@
        + text::padded_left(p99, 8) + " "@ + text::padded_left(max, 8)
}

impl SectionStats {
    pub open spec fn row(&self) -> Seq<char> {
        table_row(
            truncated(self.name@, 18),
            text::decimal(self.samples as nat),
            time_text(self.mean as nat),
            time_text(self.p50 as nat),
            time_text(self.p95 as nat),
            time_text(self.p99 as nat),
            time_text(self.max as nat),
        )
    }
}

/// The lines of a summary over `frames` frames: a title, the column heads, and one row per
/// section, in the order given.
pub open spec fn summary_texts(frames: nat, stats: Seq<SectionStats>) -> Seq<Seq<char>> {
    seq![
        "trace summary ("@ + text::decimal(frames) + " frames, sorted by p95 desc):"@,
        table_row("section"@, "n"@, "mean"@, "p50"@, "p95"@, "p99"@, "max"@),
    ] + stats.map_values(|s: SectionStats| s.row())
}

fn format_row(name: &str, n: &str, mean: &str, p50: &str, p95: &str, p99: &str, max: &str) -> (r:
    String)
    ensures
        r@ == table_row(name@, n@, mean@, p50@, p95@, p99@, max@),
{
    let mut s = "  ".to_owned();
    s.append(pad(name, 18).as_str());
    s.append(" ");
    s.append(pad_left(n, 6).as_str());
    s.append(" ");
    s.append(pad_left(mean, 8).as_str());
    s.append(" ");
    s.append(pad_left(p50, 8).as_str());
    s.append(" ");
    s.append(pad_left(p95, 8).as_str());
    s.append(" ");
    s.append(pad_left(p99, 8).as_str());
    s.append(" ");
    s.append(pad_left(max, 8).as_str());
    s
}

fn stats_row(s: &SectionStats) -> (r: String)
    ensures
        r@ == s.row(),
{
    format_row(
        truncate(s.name.as_str(), 18).as_str(),
        number(s.samples).as_str(),
        fmt_dur(s.mean).as_str(),
        fmt_dur(s.p50).as_str(),
        fmt_dur(s.p95).as_str(),
        fmt_dur(s.p99).as_str(),
        fmt_dur(s.max).as_str(),
    )
}

fn summary(frames: u64, stats: &Vec<SectionStats>) -> (r: Vec<String>)
    ensures
        text::views(r@) == summary_texts(frames as nat, stats@),
{
    let ghost all = summary_texts(frames as nat, stats@);
    let mut title = "trace summary (".to_owned();
    title.append(number(frames).as_str());
    title.append(" frames, sorted by p95 desc):");
    let head = format_row("section", "n", "mean", "p50", "p95", "p99", "max");
    let mut out: Vec<String> = Vec::new();
    out.push(title);
    out.push(head);
    let mut i: usize = 0;
    assert(text::views(out@) =~= all.take(2));
    while i < stats.len()
        invariant
            i <= stats.len(),
            all == summary_texts(frames as nat, stats@),
            text::views(out@) == all.take(2 + i),
        decreases stats.len() - i,
    {
        let row = stats_row(&stats[i]);
        let ghost before = out@;
        out.push(row);
        assert(text::views(out@) =~= text::views(before).push(row@));
        assert(all[2 + i] == row@);
        assert(all.take(2 + i + 1) =~= all.take(2 + i).push(all[2 + i]));
        i += 1;
    }
    assert(all.take(2 + stats.len()) =~= all);
    out
}

/// Texts as output lines.
pub open spec fn output_lines(texts: Seq<Seq<char>>) -> Seq<LineView> {
    texts.map_values(|t: Seq<char>| LineView::output(t))
}

fn print_all(lines: &Vec<String>, out: &mut ConsoleWriter)
    ensures
        final(out)@ == old(out)@ + output_lines(text::views(lines@)),
{
    let ghost all = output_lines(text::views(lines@));
    let mut i: usize = 0;
    assert(out@ + all.take(0) =~= out@);
    while i < lines.len()
        invariant
            i <= lines.len(),
            all == output_lines(text::views(lines@)),
            out@ == old(out)@ + all.take(i as int),
        decreases lines.len() - i,
    {
        out.line(lines[i].as_str());
        assert(all[i as int] == LineView::output(lines@[i as int]@));
        assert(old(out)@ + all.take(i + 1) =~= (old(out)@ + all.take(i as int)).push(
            all[i as int],
        ));
        i += 1;
    }
    assert(all.take(lines.len() as int) =~= all);
}

/// What `trace summary` prints.
pub open spec fn printed_summary(frames: nat, stats: Seq<SectionStats>) -> Seq<LineView> {
    if stats.len() == 0 {
        seq![
            LineView::output(
                "trace: no frames in window (collect runs once the demo is rendering)"@,
            ),
        ]
    } else {
        output_lines(summary_texts(frames, stats))
    }
}

/// Print the rolling-window aggregate: one row per section, in the order given.
pub fn print_summary(frames: u64, stats: &Vec<SectionStats>, out: &mut ConsoleWriter)
    ensures
        final(out)@ == old(out)@ + printed_summary(frames as nat, stats@),
{
    if stats.len() == 0 {
        out.line("trace: no frames in window (collect runs once the demo is rendering)");
        assert(out@ =~= old(out)@ + printed_summary(frames as nat, stats@));
        return;
    }
    let lines = summary(frames, stats);
    print_all(&lines, out);
}

/// The texts one after the other, each ended by a newline.
pub open spec fn as_lines(texts: Seq<Seq<char>>) -> Seq<char>
    decreases texts.len(),
{
    if texts.len() == 0 {
        Seq::empty()
    } else {
        as_lines(texts.drop_last()) + texts.last() + "\n"@
    }
}

/// The summary as one block of text, for a log that can be copied from.
pub fn format_summary(frames: u64, stats: &Vec<SectionStats>) -> (r: String)
    ensures
        r@ == (if stats@.len() == 0 {
            "trace: no frames in window\n"@
        } else {
            as_lines(summary_texts(frames as nat, stats@))
        }),
{
    if stats.len() == 0 {
        return "trace: no frames in window\n".to_owned();
    }
    let lines = summary(frames, stats);
    let ghost texts = text::views(lines@);
    let mut s = String::new();
    let mut i: usize = 0;
    assert(s@ =~= as_lines(texts.take(0)));
    while i < lines.len()
        invariant
            i <= lines.len(),
            texts == text::views(lines@),
            s@ == as_lines(texts.take(i as int)),
        decreases lines.len() - i,
    {
        s.append(lines[i].as_str());
        s.append("\n");
        assert(texts.take(i + 1).drop_last() =~= texts.take(i as int));
        assert(texts.take(i + 1).last() == lines@[i as int]@);
        i += 1;
    }
    assert(texts.take(lines.len() as int) =~= texts);
    s
}

// ---------------------------------------------------------------------------
// The last frame
// ---------------------------------------------------------------------------

/// The most recently completed frame. Its sections stand in the order they opened.
pub struct FrameShares {
    pub sections: Vec<SectionTime>,
    pub total: u64,
}

/// A section's share of a frame's time, in percent: the section's time as a double, times
/// 100, over the frame's; zero for a frame that took no time.
pub open spec fn share_text(elapsed: nat, total: nat) -> Seq<char> {
    if total == 0 {
        quotient::quotient_text(0, 1, 1)
    } else {
        quotient::quotient_text(
            quotient::to_double(quotient::to_double(elapsed) * 100),
            quotient::to_double(total),
            1,
        )
    }
}

fn share(elapsed: u64, total: u64) -> (r: String)
    ensures
        r@ == share_text(elapsed as nat, total as nat),
{
    if total == 0 {
        show_quotient(0, 1, 1)
    } else {
        show_quotient(
            as_double(as_double(elapsed as u128) * 100),
            as_double(total as u128),
            1,
        )
    }
}

/// One section's row of the breakdown.
pub open spec fn share_row(s: SectionTime, total: u64) -> Seq<char> {
    "  "@ + text::padded(truncated(s.name@, 18), 18) + " "@ + text::padded_left(
        time_text(s.elapsed as nat),
        10,
    ) + " ("@ + text::padded_left(share_text(s.elapsed as nat, total as nat), 4) + "%)"@
}

/// What `trace last` prints.
pub open spec fn printed_last(frame: Option<&FrameShares>) -> Seq<LineView> {
    match frame {
        None => seq![LineView::output("trace: no frames in window yet"@)],
        Some(f) => output_lines(
            seq![
                "trace last-frame ("@ + text::decimal(f.sections@.len()) + " sections, sum "@
                    + time_text(f.total as nat) + "):"@,
            ] + f.sections@.map_values(|s: SectionTime| share_row(s, f.total)),
        ),
    }
}

/// Print the most recent completed frame's breakdown, in the order its sections opened.
pub fn print_last(frame: Option<&FrameShares>, out: &mut ConsoleWriter)
    ensures
        final(out)@ == old(out)@ + printed_last(frame),
{
    let f = match frame {
        None => {
            out.line("trace: no frames in window yet");
            assert(out@ =~= old(out)@ + printed_last(frame));
            return;
        },
        Some(f) => f,
    };
    let ghost all = printed_last(frame);
    let mut title = "trace last-frame (".to_owned();
    title.append(number(f.sections.len() as u64).as_str());
    title.append(" sections, sum ");
    title.append(fmt_dur(f.total).as_str());
    title.append("):");
    out.line(title.as_str());
    assert(out@ =~= old(out)@ + all.take(1));
    let mut i: usize = 0;
    while i < f.sections.len()
        invariant
            i <= f.sections.len(),
            frame == Some(f),
            all == printed_last(frame),
            out@ == old(out)@ + all.take(1 + i),
        decreases f.sections.len() - i,
    {
        let section = &f.sections[i];
        let mut row = "  ".to_owned();
        row.append(pad(truncate(section.name.as_str(), 18).as_str(), 18).as_str());
        row.append(" ");
        row.append(pad_left(fmt_dur(section.elapsed).as_str(), 10).as_str());
        row.append(" (");
        row.append(pad_left(share(section.elapsed, f.total).as_str(), 4).as_str());
        row.append("%)");
        out.line(row.as_str());
        assert(all[1 + i] == LineView::output(share_row(f.sections@[i as int], f.total)));
        assert(old(out)@ + all.take(1 + i + 1) =~= (old(out)@ + all.take(1 + i)).push(
            all[1 + i],
        ));
        i += 1;
    }
    assert(all.take(1 + f.sections.len()) =~= all);
}

// ---------------------------------------------------------------------------
// The `trace` command
// ---------------------------------------------------------------------------

/// What the collector has to show when the command runs.
pub struct TraceFeed {
    /// Frames in the rolling window.
    pub frames: u64,
    /// Per section, sorted by p95 descending.
    pub stats: Vec<SectionStats>,
    pub last: Option<FrameShares>,
}

/// What the command asks of the collector.
pub enum TraceAction {
    Nothing,
    /// Log this block of text as one event.
    Dump(String),
    /// Drop the rolling history and go back to the default capacity.
    Clear,
    /// Set the rolling-window size.
    SetCapacity(usize),
}

/// A `TraceAction` over plain values.
pub enum TraceActionView {
    Nothing,
    Dump(Seq<char>),
    Clear,
    SetCapacity(nat),
}

impl View for TraceAction {
    type V = TraceActionView;

    open spec fn view(&self) -> TraceActionView {
        match self {
            TraceAction::Nothing => TraceActionView::Nothing,
            TraceAction::Dump(s) => TraceActionView::Dump(s@),
            TraceAction::Clear => TraceActionView::Clear,
            TraceAction::SetCapacity(n) => TraceActionView::SetCapacity(*n as nat),
        }
    }
}

/// The capacity that `trace cap` with these arguments sets: a number of at least one.
pub open spec fn asked_capacity(args: Seq<Seq<char>>) -> Option<nat> {
    match log::arg_at(args, 1) {
        Some(word) => match text::bounded_value(word, usize::MAX as nat) {
            Some(n) if n >= 1 => Some(n),
            _ => None,
        },
        None => None,
    }
}

/// What `trace` with these arguments asks of the collector.
pub open spec fn trace_action(feed: TraceFeed, args: Seq<Seq<char>>) -> TraceActionView {
    let first = log::arg_at(args, 0);
    if first == Some("dump"@) {
        TraceActionView::Dump(
            if feed.stats@.len() == 0 {
                "trace: no frames in window\n"@
            } else {
                as_lines(summary_texts(feed.frames as nat, feed.stats@))
            },
        )
    } else if first == Some("clear"@) {
        TraceActionView::Clear
    } else if first == Some("cap"@) {
        match asked_capacity(args) {
            Some(n) => TraceActionView::SetCapacity(n),
            None => TraceActionView::Nothing,
        }
    } else {
        TraceActionView::Nothing
    }
}

/// What `trace` with these arguments prints.
pub open spec fn trace_lines(feed: TraceFeed, args: Seq<Seq<char>>) -> Seq<LineView> {
    match log::arg_at(args, 0) {
        None => printed_summary(feed.frames as nat, feed.stats@),
        Some(first) => {
            if first == "summary"@ {
                printed_summary(feed.frames as nat, feed.stats@)
            } else if first == "last"@ {
                printed_last(
                    match feed.last {
                        Some(f) => Some(&f),
                        None => None,
                    },
                )
            } else if first == "dump"@ {
                seq![
                    LineView::output(
                        "trace: dumped to browser console (open DevTools to copy)"@,
                    ),
                ]
            } else if first == "clear"@ {
                seq![LineView::output("trace: history cleared"@)]
            } else if first == "cap"@ {
                match asked_capacity(args) {
                    Some(n) => seq![
                        LineView::output(
                            "trace: capacity set to "@ + text::decimal(n) + " frames"@,
                        ),
                    ],
                    None => seq![LineView::output("usage: trace cap <N>  (N >= 1)"@)],
                }
            } else {
                seq![
                    LineView::output(
                        "trace: unknown subcommand '"@ + first
                            + "' (try summary | last | dump | clear | cap)"@,
                    ),
                ]
            }
        },
    }
}

/// The five subcommands are told apart.
proof fn subcommands_differ()
    ensures
        "summary"@ != "dump"@,
        "summary"@ != "clear"@,
        "summary"@ != "cap"@,
        "last"@ != "dump"@,
        "last"@ != "clear"@,
        "last"@ != "cap"@,
        "dump"@ != "clear"@,
        "dump"@ != "cap"@,
        "clear"@ != "cap"@,
{
    reveal_strlit("summary");
    reveal_strlit("last");
    reveal_strlit("dump");
    reveal_strlit("clear");
    reveal_strlit("cap");
    assert("last"@[0] != "dump"@[0]);
    assert("clear"@.len() != "cap"@.len());
}

/// Run the `trace` command: `summary` (also without arguments), `last`, `dump`, `clear` or
/// `cap <N>`. It never fails; what it asks of the collector is returned.
pub fn run_trace(feed: &TraceFeed, args: &[&str], out: &mut ConsoleWriter) -> (r: TraceAction)
    ensures
        r@ == trace_action(*feed, text::str_views(args@)),
        final(out)@ == old(out)@ + trace_lines(*feed, text::str_views(args@)),
{
    let ghost words = text::str_views(args@);
    let ghost lines = trace_lines(*feed, words);
    proof {
        subcommands_differ();
    }
    if args.len() == 0 {
        print_summary(feed.frames, &feed.stats, out);
        return TraceAction::Nothing;
    }
    let first = args[0];
    assert(words[0] == first@);
    if text_eq(first, "summary") {
        print_summary(feed.frames, &feed.stats, out);
        TraceAction::Nothing
    } else if text_eq(first, "last") {
        print_last(feed.last.as_ref(), out);
        TraceAction::Nothing
    } else if text_eq(first, "dump") {
        let block = format_summary(feed.frames, &feed.stats);
        out.line("trace: dumped to browser console (open DevTools to copy)");
        assert(out@ =~= old(out)@ + lines);
        TraceAction::Dump(block)
    } else if text_eq(first, "clear") {
        out.line("trace: history cleared");
        assert(out@ =~= old(out)@ + lines);
        TraceAction::Clear
    } else if text_eq(first, "cap") {
        let n: Option<u64> = if args.len() > 1 {
            assert(words[1] == args@[1]@);
            parse_bounded(args[1], usize::MAX as u64)
        } else {
            None
        };
        match n {
            Some(n) if n >= 1 => {
                let mut line = "trace: capacity set to ".to_owned();
                line.append(number(n).as_str());
                line.append(" frames");
                out.line(line.as_str());
                assert(out@ =~= old(out)@ + lines);
                TraceAction::SetCapacity(n as usize)
            },
            _ => {
                out.line("usage: trace cap <N>  (N >= 1)");
                assert(out@ =~= old(out)@ + lines);
                TraceAction::Nothing
            },
        }
    } else {
        let mut line = "trace: unknown subcommand '".to_owned();
        line.append(first);
        line.append("' (try summary | last | dump | clear | cap)");
        out.line(line.as_str());
        assert(out@ =~= old(out)@ + lines);
        TraceAction::Nothing
    }
}

// ---------------------------------------------------------------------------
// Laws
// ---------------------------------------------------------------------------

/// A time is shown in the unit that fits it: one of which it has at least one, and not a
/// thousand where there is a larger one.
pub proof fn units_fit_the_time()
    ensures
        forall|ns: u64, r: TimeUnit| #[trigger]
            call_ensures(TimeUnit::of, (ns,), r) ==> {
                &&& r is Nanos <==> ns < 1_000
                &&& r is Micros <==> 1_000 <= ns < 1_000_000
                &&& r is Millis <==> 1_000_000 <= ns < 1_000_000_000
                &&& r is Seconds <==> 1_000_000_000 <= ns
            },
        forall|unit: TimeUnit, r: u64| #[trigger]
            call_ensures(TimeUnit::nanos, (unit,), r) ==> {
                &&& unit is Nanos ==> r == 1
                &&& unit is Micros ==> r == 1_000
                &&& unit is Millis ==> r == 1_000_000
                &&& unit is Seconds ==> r == 1_000_000_000
            },
        forall|unit: TimeUnit, r: &'static str| #[trigger]
            call_ensures(TimeUnit::suffix, (unit,), r) ==> {
                &&& unit is Nanos ==> r@ == "ns"@
                &&& unit is Micros ==> r@ == "us"@
                &&& unit is Millis ==> r@ == "ms"@
                &&& unit is Seconds ==> r@ == "s"@
            },
{
}

/// Is `shown` the number of `unit`s that the time is, to so many places, with the unit behind
/// it?
pub open spec fn shows_time(
    shown: Seq<char>,
    ns: nat,
    unit: nat,
    places: nat,
    suffix: Seq<char>,
) -> bool {
    exists|d: nat|
        {
            &&& shown == #[trigger] text::decimal(d / quotient::ten_to(places)) + "."@
                + text::zero_filled(d % quotient::ten_to(places), places) + suffix
            &&& d * unit - ns * quotient::ten_to(places) < unit
            &&& ns * quotient::ten_to(places) - d * unit < unit
        }
}

/// What is shown of a time is the time, to the last place that is shown.
pub proof fn shown_times_are_the_times()
    ensures
        forall|ns: u64, r: String| #[trigger]
            call_ensures(fmt_dur, (ns,), r) && ns < quotient::LIMIT ==> {
                &&& ns < 1_000 ==> r@ == text::decimal(ns as nat) + "ns"@
                &&& 1_000 <= ns < 1_000_000 ==> shows_time(r@, ns as nat, 1_000, 1, "us"@)
                &&& 1_000_000 <= ns < 1_000_000_000 ==> shows_time(
                    r@,
                    ns as nat,
                    1_000_000,
                    2,
                    "ms"@,
                )
                &&& 1_000_000_000 <= ns ==> shows_time(r@, ns as nat, 1_000_000_000, 2, "s"@)
            },
{
    assert forall|ns: u64, r: String| #[trigger]
        call_ensures(fmt_dur, (ns,), r) && ns < quotient::LIMIT implies {
        &&& ns < 1_000 ==> r@ == text::decimal(ns as nat) + "ns"@
        &&& 1_000 <= ns < 1_000_000 ==> shows_time(r@, ns as nat, 1_000, 1, "us"@)
        &&& 1_000_000 <= ns < 1_000_000_000 ==> shows_time(r@, ns as nat, 1_000_000, 2, "ms"@)
        &&& 1_000_000_000 <= ns ==> shows_time(r@, ns as nat, 1_000_000_000, 2, "s"@)
    } by {
        let unit = TimeUnit::spec_of(ns as nat);
        if ns >= 1_000 {
            let d = quotient::quotients_are_shown_to_the_place(
                ns as nat,
                unit.spec_nanos(),
                unit.spec_places(),
            );
            let p = unit.spec_places();
            assert(r@ == text::decimal(d / quotient::ten_to(p)) + "."@ + text::zero_filled(
                d % quotient::ten_to(p),
                p,
            ) + unit.spec_suffix());
            assert(shows_time(r@, ns as nat, unit.spec_nanos(), p, unit.spec_suffix()));
        }
    }
}

/// A name that fits is shown as it is; of a longer one as much as fits, with a mark at its end.
pub proof fn long_names_are_cut()
    ensures
        forall|s: &str, max: usize, r: String| #[trigger]
            call_ensures(truncate, (s, max), r) && (max >= 1 || s@.len() == 0) ==> {
                &&& s@.len() <= max ==> r@ == s@
                &&& s@.len() > max ==> r@.len() == max && r@.drop_last().is_prefix_of(s@)
                    && r@.last() == '~'
            },
{
    assert forall|s: &str, max: usize, r: String| #[trigger]
        call_ensures(truncate, (s, max), r) && max >= 1 && s@.len() > max implies
        r@.drop_last().is_prefix_of(s@) by {
        assert(r@.drop_last() =~= s@.subrange(0, max - 1));
    }
}

/// A summary has a heading, the names of its columns and a row for each section, in their order;
/// each row shows the section's name and its numbers, each in its own column.
pub open spec fn summary_meets(
    frames: nat,
    stats: Seq<SectionStats>,
    lines: Seq<Seq<char>>,
) -> bool {
    &&& lines.len() == stats.len() + 2
    &&& ("trace summary ("@ + text::decimal(frames) + " frames"@).is_prefix_of(lines[0])
    &&& forall|i: int|
        0 <= i < stats.len() ==> #[trigger] lines[i + 2] == "  "@ + text::padded(
            truncated(stats[i].name@, 18),
            18,
        ) + " "@ + text::padded_left(text::decimal(stats[i].samples as nat), 6) + " "@
            + text::padded_left(time_text(stats[i].mean as nat), 8) + " "@ + text::padded_left(
            time_text(stats[i].p50 as nat),
            8,
        ) + " "@ + text::padded_left(time_text(stats[i].p95 as nat), 8) + " "@ + text::padded_left(
            time_text(stats[i].p99 as nat),
            8,
        ) + " "@ + text::padded_left(time_text(stats[i].max as nat), 8)
}

proof fn summary_is_met(frames: nat, stats: Seq<SectionStats>)
    ensures
        summary_meets(frames, stats, summary_texts(frames, stats)),
{
    let lines = summary_texts(frames, stats);
    let head = "trace summary ("@ + text::decimal(frames) + " frames"@;
    reveal_strlit(" frames, sorted by p95 desc):");
    reveal_strlit(" frames");
    assert(head =~= lines[0].subrange(0, head.len() as int));
}

/// A summary that is printed or formatted shows every section; without any there is a line that
/// says so.
pub proof fn summaries_show_every_section()
    ensures
        forall|frames: u64, stats: &Vec<SectionStats>, out: &mut ConsoleWriter, u: ()| #[trigger]
            call_ensures(print_summary, (frames, stats, out), u) ==> {
                let a = (*out)@;
                let b = (*final(out))@;
                let texts = b.skip(a.len() as int).map_values(|l: LineView| l.text);
                &&& a.is_prefix_of(b)
                &&& stats@.len() > 0 ==> summary_meets(frames as nat, stats@, texts)
                &&& stats@.len() == 0 ==> b.len() == a.len() + 1
            },
{
    assert forall|frames: u64, stats: &Vec<SectionStats>, out: &mut ConsoleWriter, u: ()| #[trigger]
        call_ensures(print_summary, (frames, stats, out), u) implies {
        let a = (*out)@;
        let b = (*final(out))@;
        let texts = b.skip(a.len() as int).map_values(|l: LineView| l.text);
        &&& a.is_prefix_of(b)
        &&& stats@.len() > 0 ==> summary_meets(frames as nat, stats@, texts)
        &&& stats@.len() == 0 ==> b.len() == a.len() + 1
    } by {
        let a = (*out)@;
        let b = (*final(out))@;
        let texts = b.skip(a.len() as int).map_values(|l: LineView| l.text);
        assert(a =~= b.subrange(0, a.len() as int));
        if stats@.len() > 0 {
            summary_is_met(frames as nat, stats@);
            assert(texts =~= summary_texts(frames as nat, stats@));
        }
    }
}

/// The trace command asks the collector for what it was told: to forget its frames, to keep so
/// many from now on, or to show them all at once; everything else only prints.
pub proof fn trace_asks_for_what_it_is_told(n: nat)
    requires
        1 <= n <= usize::MAX,
    ensures
        forall|feed: &TraceFeed, args: &[&str], out: &mut ConsoleWriter, r: TraceAction| #[trigger]
            call_ensures(run_trace, (feed, args, out), r) ==> {
                let a = text::str_views(args@);
                &&& a.len() > 0 && a[0] == "clear"@ ==> r is Clear
                &&& a.len() > 1 && a[0] == "cap"@ && a[1] == text::decimal(n) ==> r is SetCapacity
                    && r->SetCapacity_0 == n
                &&& a.len() > 1 && a[0] == "cap"@ && a[1] == text::decimal(0) ==> r is Nothing
                &&& a.len() == 1 && a[0] == "cap"@ ==> r is Nothing
                &&& a.len() > 0 && a[0] == "dump"@ ==> r is Dump
                &&& a.len() == 0 || (a[0] != "clear"@ && a[0] != "cap"@ && a[0] != "dump"@)
                    ==> r is Nothing
                &&& (*out)@.is_prefix_of((*final(out))@)
                &&& (*final(out))@.len() > (*out)@.len()
            },
{
    reveal_strlit("clear");
    reveal_strlit("cap");
    reveal_strlit("dump");
    assert("clear"@.len() == 5 && "cap"@.len() == 3 && "dump"@.len() == 4);
    text::numbers_round_trip(n, 0, usize::MAX as nat);
    text::numbers_round_trip(0, 0, usize::MAX as nat);
    assert forall|feed: &TraceFeed, args: &[&str], out: &mut ConsoleWriter, r: TraceAction| #[trigger]
        call_ensures(run_trace, (feed, args, out), r) implies {
        let a = text::str_views(args@);
        &&& a.len() > 0 && a[0] == "clear"@ ==> r is Clear
        &&& a.len() > 1 && a[0] == "cap"@ && a[1] == text::decimal(n) ==> r is SetCapacity
            && r->SetCapacity_0 == n
        &&& a.len() > 1 && a[0] == "cap"@ && a[1] == text::decimal(0) ==> r is Nothing
        &&& a.len() == 1 && a[0] == "cap"@ ==> r is Nothing
        &&& a.len() > 0 && a[0] == "dump"@ ==> r is Dump
        &&& a.len() == 0 || (a[0] != "clear"@ && a[0] != "cap"@ && a[0] != "dump"@)
            ==> r is Nothing
        &&& (*out)@.is_prefix_of((*final(out))@)
        &&& (*final(out))@.len() > (*out)@.len()
    } by {
        let a = text::str_views(args@);
        assert(r@ == trace_action(*feed, a));
        assert((*out)@ =~= (*final(out))@.subrange(0, (*out)@.len() as int));
    }
}

/// The last frame is shown with all of its sections, in order, each with its time and its share;
/// the summary of a dump is the one that is printed.
pub proof fn last_frames_show_every_section()
    ensures
        forall|frame: Option<&FrameShares>, out: &mut ConsoleWriter, u: ()| #[trigger]
            call_ensures(print_last, (frame, out), u) ==> {
                let a = (*out)@;
                let b = (*final(out))@;
                let n = a.len() as int;
                &&& a.is_prefix_of(b)
                &&& frame is None ==> b.len() == n + 1
                &&& frame is Some ==> b.len() == n + 1 + frame->0.sections@.len()
                &&& frame is Some ==> forall|i: int|
                    0 <= i < frame->0.sections@.len() ==> (#[trigger] b[n + 1 + i]).text == "  "@
                        + text::padded(truncated(frame->0.sections@[i].name@, 18), 18) + " "@
                        + text::padded_left(time_text(frame->0.sections@[i].elapsed as nat), 10)
                        + " ("@ + text::padded_left(
                        share_text(frame->0.sections@[i].elapsed as nat, frame->0.total as nat),
                        4,
                    ) + "%)"@
            },
        forall|frames: u64, stats: &Vec<SectionStats>, r: String| #[trigger]
            call_ensures(format_summary, (frames, stats), r) && stats@.len() > 0
                ==> exists|lines: Seq<Seq<char>>|
                r@ == #[trigger] as_lines(lines) && summary_meets(frames as nat, stats@, lines),
{
    assert forall|frame: Option<&FrameShares>, out: &mut ConsoleWriter, u: ()| #[trigger]
        call_ensures(print_last, (frame, out), u) implies {
        let a = (*out)@;
        let b = (*final(out))@;
        let n = a.len() as int;
        &&& a.is_prefix_of(b)
        &&& frame is None ==> b.len() == n + 1
        &&& frame is Some ==> b.len() == n + 1 + frame->0.sections@.len()
        &&& frame is Some ==> forall|i: int|
            0 <= i < frame->0.sections@.len() ==> (#[trigger] b[n + 1 + i]).text == "  "@
                + text::padded(truncated(frame->0.sections@[i].name@, 18), 18) + " "@
                + text::padded_left(time_text(frame->0.sections@[i].elapsed as nat), 10) + " ("@
                + text::padded_left(
                share_text(frame->0.sections@[i].elapsed as nat, frame->0.total as nat),
                4,
            ) + "%)"@
    } by {
        let a = (*out)@;
        let b = (*final(out))@;
        assert(a =~= b.subrange(0, a.len() as int));
    }
    assert forall|frames: u64, stats: &Vec<SectionStats>, r: String| #[trigger]
        call_ensures(format_summary, (frames, stats), r) && stats@.len() > 0 implies exists|
        lines: Seq<Seq<char>>,
    |
        r@ == #[trigger] as_lines(lines) && summary_meets(frames as nat, stats@, lines) by {
        summary_is_met(frames as nat, stats@);
        assert(r@ == as_lines(summary_texts(frames as nat, stats@)));
    }
}

/// A section's share of a frame is its part of the frame's time, in percent, to a tenth.
pub proof fn shares_are_parts_of_the_frame(elapsed: nat, total: nat) -> (d: nat)
    requires
        0 < total < quotient::LIMIT,
        elapsed <= total,
        elapsed * 100 < quotient::LIMIT,
    ensures
        share_text(elapsed, total) == text::decimal(d / 10) + "."@ + text::zero_filled(d % 10, 1),
        d * total - elapsed * 1000 < total,
        elapsed * 1000 - d * total < total,
{
    assert(elapsed * 100 < 0x100_0000_0000 * total) by (nonlinear_arith)
        requires
            elapsed <= total,
            total > 0,
    ;
    quotient::quotients_are_shown_to_the_place(elapsed * 100, total, 1)
}

proof fn rows_stand_in_the_block(texts: Seq<Seq<char>>, k: int)
    requires
        0 <= k < texts.len(),
    ensures
        text::has_part(as_lines(texts), texts[k] + "\n"@),
    decreases texts.len(),
{
    let before = as_lines(texts.drop_last());
    let all = as_lines(texts);
    let t = texts[k] + "\n"@;
    assert(all =~= before + (texts.last() + "\n"@));
    if k == texts.len() - 1 {
        assert(all.subrange(before.len() as int, (before.len() + t.len()) as int) =~= t);
        assert(text::stands_at(all, t, before.len() as int));
    } else {
        rows_stand_in_the_block(texts.drop_last(), k);
        assert(texts.drop_last()[k] == texts[k]);
        let i = choose|i: int| text::stands_at(before, t, i);
        assert(all.subrange(i, (i + t.len()) as int) =~= before.subrange(i, (i + t.len()) as int));
        assert(text::stands_at(all, t, i));
    }
}

/// What is dumped is the whole summary, a line for every section; where there is none, it says so.
pub proof fn dumps_hold_every_section(k: int)
    ensures
        forall|feed: &TraceFeed, args: &[&str], out: &mut ConsoleWriter, r: TraceAction| #[trigger]
            call_ensures(run_trace, (feed, args, out), r) && args@.len() > 0 && args@[0]@ == "dump"@
                ==> {
                &&& r@ is Dump
                &&& feed.stats@.len() == 0 ==> r@->Dump_0 == "trace: no frames in window\n"@
                &&& 0 <= k < feed.stats@.len() ==> text::has_part(
                    r@->Dump_0,
                    feed.stats@[k].row() + "\n"@,
                )
            },
{
    assert forall|feed: &TraceFeed, args: &[&str], out: &mut ConsoleWriter, r: TraceAction| #[trigger]
        call_ensures(run_trace, (feed, args, out), r) && args@.len() > 0 && args@[0]@ == "dump"@
            && 0 <= k < feed.stats@.len() implies text::has_part(
        r@->Dump_0,
        feed.stats@[k].row() + "\n"@,
    ) by {
        let a = text::str_views(args@);
        assert(a[0] == "dump"@);
        let texts = summary_texts(feed.frames as nat, feed.stats@);
        rows_stand_in_the_block(texts, k + 2);
        assert(texts[k + 2] == feed.stats@[k].row());
    }
    assert forall|feed: &TraceFeed, args: &[&str], out: &mut ConsoleWriter, r: TraceAction| #[trigger]
        call_ensures(run_trace, (feed, args, out), r) && args@.len() > 0 && args@[0]@ == "dump"@ implies {
        &&& r@ is Dump
        &&& feed.stats@.len() == 0 ==> r@->Dump_0 == "trace: no frames in window\n"@
    } by {
        assert(text::str_views(args@)[0] == "dump"@);
    }
}

} // verus!
