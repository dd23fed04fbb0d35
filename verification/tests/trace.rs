use rye::console::line::ConsoleWriter;
use rye::keys::Key;
use rye::trace::perf::{
    byte_severity, count_severity, heap_severity, summarize, worst_severity, AllocDelta,
    FrameSample, PerfOverlay, SectionTime, Severity, StackBuf, MAX_WINDOW,
};
use rye::quotient::{as_double, show_quotient};
use rye::trace::{
    fmt_dur, format_summary, print_last, run_trace, truncate, FrameShares, SectionStats, TimeUnit,
    TraceAction, TraceFeed, DEFAULT_CAPACITY,
};

#[test]
fn fmt_dur_emits_ns_under_microsecond() {
    assert!(fmt_dur(0).ends_with("ns"));
    assert!(fmt_dur(999).ends_with("ns"));
}

#[test]
fn fmt_dur_emits_us_under_millisecond() {
    assert!(fmt_dur(1_000).ends_with("us"));
    assert!(fmt_dur(999_999).ends_with("us"));
}

#[test]
fn fmt_dur_emits_ms_under_second() {
    assert!(fmt_dur(1_000_000).ends_with("ms"));
    assert!(fmt_dur(999_999_999).ends_with("ms"));
}

#[test]
fn fmt_dur_emits_seconds_above() {
    assert!(fmt_dur(1_000_000_000).ends_with('s'));
    assert!(!fmt_dur(1_000_000_000).ends_with("ms"));
    assert!(!fmt_dur(1_000_000_000).ends_with("us"));
}

#[test]
fn fmt_dur_exact_values() {
    assert_eq!(fmt_dur(999), "999ns");
    assert_eq!(fmt_dur(1_500), "1.5us");
    assert_eq!(fmt_dur(16_666_667), "16.67ms");
    assert_eq!(fmt_dur(2_500_000_000), "2.50s");
    assert_eq!(fmt_dur(999_999), "1000.0us");
}

/// Times that spread over every unit.
fn spread() -> Vec<u64> {
    let mut times = Vec::new();
    let mut state: u64 = 0x9E37_79B9_7F4A_7C15;
    for i in 0..20_000u32 {
        state = state.wrapping_mul(6_364_136_223_846_793_005).wrapping_add(1_442_695_040_888_963_407);
        times.push(state >> (i % 64));
    }
    times
}

#[test]
fn fmt_dur_shows_what_division_gives() {
    let ties = (0..2_000u64).map(|k| 1_000 + 50 * k);
    let fine = (0..2_000u64).map(|k| 1_000_000 + 5_000 * k);
    let coarse = (0..2_000u64).map(|k| 1_000_000_000 + 5_000_000 * k);
    for ns in ties.chain(fine).chain(coarse).chain(spread()).chain([u64::MAX]) {
        let unit = TimeUnit::of(ns);
        let value = ns as f64 / unit.nanos() as f64;
        assert_eq!(fmt_dur(ns), format!("{value:.*}{}", unit.places(), unit.suffix()));
    }
}

#[test]
fn quotients_round_as_doubles_do() {
    let times = spread();
    for pair in times.windows(2) {
        let (elapsed, total) = (pair[0], pair[1].max(1));
        assert_eq!(as_double(elapsed as u128), elapsed as f64 as u128);
        let percent = elapsed as f64 * 100.0 / total as f64;
        let shown = show_quotient(
            as_double(as_double(elapsed as u128) * 100),
            as_double(total as u128),
            1,
        );
        assert_eq!(shown, format!("{percent:.1}"));
    }
    assert_eq!(show_quotient(0, 1, 1), "0.0");
    assert_eq!(show_quotient(1, 8, 2), "0.12");
    assert_eq!(show_quotient(3, 8, 2), "0.38");
    assert_eq!(show_quotient(1, 3, 3), "0.333");
}

#[test]
fn truncate_preserves_short_names_and_marks_long_ones() {
    assert_eq!(truncate("frame", 18), "frame");
    assert_eq!(truncate("abcdefghijklmnopqr", 18).len(), 18);
    let long = "supercalifragilisticexpialidocious";
    let t = truncate(long, 18);
    assert_eq!(t.len(), 18);
    assert!(t.ends_with('~'), "truncate should mark with `~`");
}

#[test]
fn truncate_counts_characters() {
    assert_eq!(truncate("ωωωω", 4), "ωωωω");
    assert_eq!(truncate("ωωωωω", 4), "ωωω~");
    assert_eq!(truncate("ab", 1), "~");
    assert_eq!(truncate("", 0), "");
}

/// The rank of a quantile among `len` samples.
fn rank(len: usize, q: f32) -> usize {
    (len as f32 * q) as usize
}

#[test]
fn stackbuf_starts_empty() {
    let buf = StackBuf::new();
    assert_eq!(buf.as_slice().len(), 0);
    assert_eq!(buf.mean(), 0);
    assert_eq!(buf.percentile(rank(0, 0.5)), 0);
    assert_eq!(buf.percentile(rank(0, 0.99)), 0);
}

#[test]
fn stackbuf_push_appends_in_order() {
    let mut buf = StackBuf::new();
    for ms in [10u64, 20, 30] {
        buf.push(ms * 1_000_000);
    }
    let slice = buf.as_slice();
    assert_eq!(slice.len(), 3);
    assert_eq!(slice[0], 10_000_000);
    assert_eq!(slice[1], 20_000_000);
    assert_eq!(slice[2], 30_000_000);
}

#[test]
fn stackbuf_push_silently_drops_past_max_window() {
    let mut buf = StackBuf::new();
    for i in 0..(MAX_WINDOW + 10) {
        buf.push(i as u64);
    }
    assert_eq!(buf.as_slice().len(), MAX_WINDOW, "push beyond cap must not allocate; samples drop");
}

#[test]
fn stackbuf_mean_handles_uniform_input() {
    let mut buf = StackBuf::new();
    for _ in 0..10 {
        buf.push(16_000_000);
    }
    assert_eq!(buf.mean(), 16_000_000);
}

#[test]
fn stackbuf_percentile_picks_nearest_rank() {
    let mut buf = StackBuf::new();
    for ms in 1..=10u64 {
        buf.push(ms * 1_000_000);
    }
    assert_eq!(buf.percentile(rank(10, 0.5)), 6_000_000);
    assert_eq!(buf.percentile(rank(10, 0.95)), 10_000_000);
    assert_eq!(buf.percentile(rank(10, 0.99)), 10_000_000);
    assert_eq!(buf.percentile(10), 10_000_000);
    assert_eq!(buf.p99(), buf.percentile(rank(10, 0.99)));
}

#[test]
fn p99_leaves_out_one_in_a_hundred() {
    let mut buf = StackBuf::new();
    assert_eq!(buf.p99(), 0);
    for ns in (1..=200u64).rev() {
        buf.push(ns);
    }
    assert_eq!(buf.p99(), 199);
    for n in 1..=256usize {
        assert_eq!(rank(n, 0.99), n * 99 / 100);
    }
}

#[test]
fn stackbuf_percentile_is_order_preserving_on_self() {
    let mut buf = StackBuf::new();
    for ms in [30u64, 5, 25, 10, 20] {
        buf.push(ms * 1_000_000);
    }
    let before: Vec<u64> = buf.as_slice().to_vec();
    let middle = buf.percentile(rank(5, 0.5));
    let after: Vec<u64> = buf.as_slice().to_vec();
    assert_eq!(before, after, "percentile must not reorder self");
    assert_eq!(middle, 20_000_000);
}

fn stats(name: &str) -> SectionStats {
    SectionStats {
        name: name.to_string(),
        samples: 12,
        mean: 1_500,
        p50: 1_000,
        p95: 2_000_000,
        p99: 3_000_000,
        max: 4_000_000_000,
    }
}

fn feed(names: &[&str]) -> TraceFeed {
    TraceFeed {
        frames: 12,
        stats: names.iter().map(|n| stats(n)).collect(),
        last: Some(FrameShares {
            sections: vec![SectionTime { name: "frame".to_string(), elapsed: 2_000_000 }],
            total: 3_000_000,
        }),
    }
}

fn texts(out: &ConsoleWriter) -> Vec<&str> {
    out.lines.iter().map(|l| l.text.as_str()).collect()
}

#[test]
fn summary_table() {
    let mut out = ConsoleWriter::new();
    let action = run_trace(&feed(&["a_section_name_that_is_long"]), &[], &mut out);
    assert!(matches!(action, TraceAction::Nothing));
    assert_eq!(
        texts(&out),
        vec![
            "trace summary (12 frames, sorted by p95 desc):",
            "  section                 n     mean      p50      p95      p99      max",
            "  a_section_name_th~     12    1.5us    1.0us   2.00ms   3.00ms    4.00s",
        ]
    );
}

#[test]
fn summary_block_ends_each_line() {
    let f = feed(&["x"]);
    let block = format_summary(f.frames, &f.stats);
    assert_eq!(block.lines().count(), 3);
    assert!(block.ends_with("\n"));
    assert_eq!(format_summary(0, &vec![]), "trace: no frames in window\n");
}

#[test]
fn last_frame_breakdown() {
    let f = feed(&[]);
    let mut out = ConsoleWriter::new();
    print_last(f.last.as_ref(), &mut out);
    assert_eq!(
        texts(&out),
        vec![
            "trace last-frame (1 sections, sum 3.00ms):",
            "  frame                  2.00ms (66.7%)",
        ]
    );
    let mut out = ConsoleWriter::new();
    print_last(None, &mut out);
    assert_eq!(texts(&out), vec!["trace: no frames in window yet"]);
}

#[test]
fn trace_subcommands() {
    let f = feed(&["x"]);
    let mut out = ConsoleWriter::new();
    assert!(matches!(run_trace(&f, &["clear"], &mut out), TraceAction::Clear));
    assert!(matches!(run_trace(&f, &["cap", "60"], &mut out), TraceAction::SetCapacity(60)));
    assert!(matches!(run_trace(&f, &["cap", "0"], &mut out), TraceAction::Nothing));
    assert!(matches!(run_trace(&f, &["cap"], &mut out), TraceAction::Nothing));
    assert!(matches!(run_trace(&f, &["dump"], &mut out), TraceAction::Dump(_)));
    assert!(matches!(run_trace(&f, &["what"], &mut out), TraceAction::Nothing));
    assert_eq!(
        texts(&out),
        vec![
            "trace: history cleared",
            "trace: capacity set to 60 frames",
            "usage: trace cap <N>  (N >= 1)",
            "usage: trace cap <N>  (N >= 1)",
            "trace: dumped to browser console (open DevTools to copy)",
            "trace: unknown subcommand 'what' (try summary | last | dump | clear | cap)",
        ]
    );
    assert_eq!(DEFAULT_CAPACITY, 120);
}

fn sample(frame_ns: u64, heap: Option<i64>) -> FrameSample {
    FrameSample {
        sections: vec![SectionTime { name: "frame".to_string(), elapsed: frame_ns }],
        heap_delta_bytes: heap,
        allocs: Some(AllocDelta { alloc_count: 4, alloc_bytes: 100, net_bytes: -2 }),
    }
}

#[test]
fn overlay_summarises_the_newest_frames() {
    let history = vec![sample(1, Some(10)), sample(2, Some(-5)), sample(3, None)];
    let s = summarize(&history, 2);
    assert_eq!(s.frames.as_slice(), &[2, 3]);
    assert_eq!(s.heap_count, 1);
    assert_eq!(s.heap_net, -5);
    assert_eq!(s.alloc_frames, 2);
    assert_eq!(s.alloc_count_sum, 8);
    assert_eq!(s.alloc_net_bytes, -4);
    assert_eq!(s.alloc_peak_bytes, 100);
    assert_eq!(s.mean_allocs(), 4);
}

#[test]
fn overlay_toggles_and_pins() {
    let history = vec![sample(5, None)];
    let mut overlay = PerfOverlay::new().with_toggle_key(Key::F(3));
    assert_eq!(overlay.toggle_key, Key::F(3));
    let shown_at_first = overlay.show(false, &history).is_some();
    assert_ne!(overlay.show(true, &history).is_some(), shown_at_first);
    assert_eq!(overlay.show(true, &history).is_some(), shown_at_first);
    let mut pinned = PerfOverlay::new().always_visible();
    assert!(pinned.show(false, &history).is_some());
    assert!(pinned.show(true, &history).is_some());
}

#[test]
fn severities_rise() {
    assert_eq!(count_severity(0), Severity::Good);
    assert_eq!(byte_severity(0), Severity::Good);
    assert_eq!(heap_severity(0), Severity::Good);
    assert_eq!(byte_severity(i64::MAX), Severity::Bad);
    assert_eq!(count_severity(u64::MAX), Severity::Bad);
    assert_eq!(worst_severity(49_999_999), Severity::Good);
    assert_eq!(worst_severity(50_000_000), Severity::Warn);
    assert_eq!(worst_severity(100_000_000), Severity::Bad);
}

#[test]
fn percentiles_leave_the_samples_in_their_order() {
    let mut buf = StackBuf::new();
    for ns in [5, 1, 4, 1, 3] {
        buf.push(ns);
    }
    let ranked: Vec<u64> = (0..7).map(|r| buf.percentile(r)).collect();
    assert_eq!(ranked, vec![1, 1, 3, 4, 5, 5, 5]);
    assert_eq!(buf.as_slice(), [5, 1, 4, 1, 3]);
}
