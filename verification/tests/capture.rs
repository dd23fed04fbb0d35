use std::sync::Arc;

use rye::capture::args::{parse_capture_args, parse_format};
use rye::capture::command::{bind_default_hotkeys, capture_help, run_capture};
use rye::capture::encode::{ApngCanvas, ApngFrame, GifFrame, GifStream};
use rye::capture::palette::{
    index_frame, quantize_frame, train_global_palette, WarmupFrame, MAX_RESIZE_SIDE,
};
use rye::capture::panel::{status_label, CapturePanel};
use rye::capture::pixels::{
    fps_to_centiseconds, fps_to_interval, harden_alpha, push_samples, row_layout, scaled_dims,
    unpack_rows, RowLayout,
};
use rye::capture::session::{
    apng_stopped_line, default_name, gif_stopped_line, join_path, start_failed_line, Capture,
    FrameAction, Step, GIF_WARMUP_FRAMES,
};
use rye::capture::{
    current_status, drain_requests, enqueue, publish_status, toggle_panel_global, CaptureFormat,
    CaptureHub, CaptureRequest, CaptureStage, PaletteMode, SequenceParams,
};
use rye::console::line::{ConsoleWriter, LineKind};
use rye::console::Console;
use rye::keys::Key;

#[test]
fn scaled_dims_preserves_aspect_ratio() {
    assert_eq!(scaled_dims(1920, 1080, Some(720)).unwrap(), (720, 405));
    assert_eq!(scaled_dims(1024, 1024, Some(512)).unwrap(), (512, 512));
    assert_eq!(scaled_dims(1080, 1920, Some(360)).unwrap(), (360, 640));
    assert_eq!(scaled_dims(800, 600, None).unwrap(), (800, 600));
    assert_eq!(scaled_dims(10000, 1, Some(100)).unwrap(), (100, 1));
}

#[test]
fn scaled_dims_rejects_zero_target() {
    assert!(scaled_dims(1920, 1080, Some(0)).is_err());
    assert!(scaled_dims(0, 1080, Some(720)).is_err());
    assert!(scaled_dims(1920, 0, Some(720)).is_err());
}

#[test]
fn scaled_dims_names_the_sizes() {
    assert_eq!(
        scaled_dims(1920, 0, Some(720)).unwrap_err().message,
        "invalid scale: target_w=720, src=1920x0"
    );
}

#[test]
fn parse_capture_args_extracts_kv_pairs() {
    let p = parse_capture_args(&["pre", "./shots", "fps=24", "scale=480"]);
    assert_eq!(p.stage, CaptureStage::Pre);
    assert_eq!(p.dir.as_deref(), Some("./shots"));
    assert_eq!(p.fps, Some(24));
    assert_eq!(p.scale, Some(480));
}

#[test]
fn parse_capture_args_ignores_malformed_kv() {
    let p = parse_capture_args(&["fps=abc", "scale=xyz"]);
    assert!(p.fps.is_none());
    assert!(p.scale.is_none());
}

#[test]
fn parse_capture_args_bounds_and_defaults() {
    let p = parse_capture_args(&["fps=65536", "scale=4294967296", "palette=global"]);
    assert!(p.fps.is_none());
    assert!(p.scale.is_none());
    assert_eq!(p.palette, PaletteMode::Global);
    let p = parse_capture_args(&["palette=global", "palette=other", "both", "fps=+30"]);
    assert_eq!(p.palette, PaletteMode::Global);
    assert_eq!(p.stage, CaptureStage::Both);
    assert_eq!(p.fps, Some(30));
    let p = parse_capture_args(&[]);
    assert_eq!(p.stage, CaptureStage::Post);
    assert!(p.dir.is_none());
    assert_eq!(p.palette, PaletteMode::Local);
}

#[test]
fn format_keyword() {
    assert_eq!(parse_format(&["toggle", "frames", "x"], 1), (CaptureFormat::Png, 2));
    assert_eq!(parse_format(&["toggle", "apng"], 1), (CaptureFormat::Apng, 2));
    assert_eq!(parse_format(&["toggle", "post"], 1), (CaptureFormat::Gif, 1));
    assert_eq!(parse_format(&["toggle"], 1), (CaptureFormat::Gif, 1));
}

#[test]
fn rates() {
    assert_eq!(fps_to_centiseconds(30), 3);
    assert_eq!(fps_to_centiseconds(0), 100);
    assert_eq!(fps_to_centiseconds(1000), 1);
    assert_eq!(fps_to_interval(30), 33_333_333);
    assert_eq!(fps_to_interval(60), 16_666_667);
    assert_eq!(fps_to_interval(1024), 976_562);
    assert_eq!(fps_to_interval(0), 1_000_000_000);
}

#[test]
fn alpha_is_made_hard() {
    let mut rgba = vec![1, 2, 3, 0, 4, 5, 6, 7, 9];
    harden_alpha(&mut rgba);
    assert_eq!(rgba, vec![1, 2, 3, 0, 4, 5, 6, 255, 9]);
}

#[test]
fn every_sixteenth_pixel_is_sampled() {
    let mut rgba = Vec::new();
    for i in 0..33u8 {
        rgba.extend_from_slice(&[i, 0, 0, i]);
    }
    let mut out = vec![7];
    push_samples(&mut out, &rgba);
    assert_eq!(out, vec![7, 0, 0, 0, 0, 16, 0, 0, 255, 32, 0, 0, 255]);
}

#[test]
fn rows_are_padded_and_unpacked() {
    let layout = row_layout(3, 2).unwrap();
    assert_eq!(layout, RowLayout { unpadded_bpr: 12, padded_bpr: 256, buffer_size: 512 });
    assert_eq!(row_layout(64, 1).unwrap().padded_bpr, 256);
    assert_eq!(row_layout(65, 1).unwrap().padded_bpr, 512);
    assert_eq!(row_layout(u32::MAX, 1).unwrap_err().message, "width * 4 overflows u32");
    let mut data = vec![0u8; 512];
    for i in 0..12 {
        data[i] = i as u8;
        data[256 + i] = 100 + i as u8;
    }
    let rgba = unpack_rows(&data, 3, 2, layout, false);
    assert_eq!((rgba.width, rgba.height), (3, 2));
    assert_eq!(rgba.rgba[..5], [0, 1, 2, 3, 4]);
    assert_eq!(rgba.rgba[12..16], [100, 101, 102, 103]);
    let bgra = unpack_rows(&data, 3, 2, layout, true);
    assert_eq!(bgra.rgba[..4], [2, 1, 0, 3]);
    assert_eq!(bgra.rgba.len(), 24);
}

// ----------------- Palettes and scaling -----------------

fn frame(pixel: [u8; 4], side: u32, at: u64) -> WarmupFrame {
    let mut rgba = Vec::new();
    for _ in 0..side * side {
        rgba.extend_from_slice(&pixel);
    }
    WarmupFrame { rgba, width: side, height: side, captured_at: at }
}

fn chessboard(side: u32, at: u64) -> WarmupFrame {
    let mut rgba = Vec::new();
    for i in 0..side * side {
        let on = (i / side + i % side) % 2 == 0;
        rgba.extend_from_slice(if on { &[255, 0, 0, 255] } else { &[0, 0, 255, 255] });
    }
    WarmupFrame { rgba, width: side, height: side, captured_at: at }
}

#[test]
fn trained_palette_tells_colors_apart() {
    let palette = train_global_palette(&vec![
        frame([255, 0, 0, 255], 64, 0),
        frame([0, 0, 255, 255], 64, 1),
    ]);
    let red = index_frame(1, 1, vec![255, 0, 0, 9], &palette);
    let red_again = index_frame(1, 1, vec![255, 0, 0, 255], &palette);
    let blue = index_frame(1, 1, vec![0, 0, 255, 255], &palette);
    assert_eq!(red.indices.len(), 1);
    assert_eq!(red.indices, red_again.indices);
    assert_ne!(red.indices, blue.indices);
    assert!(red.palette.is_none());
    assert!(red.transparent.is_none());
}

#[test]
fn frames_get_palettes_of_their_own() {
    let c = chessboard(8, 0);
    let f = quantize_frame(8, 8, c.rgba);
    assert_eq!((f.width, f.height), (8, 8));
    assert_eq!(f.indices.len(), 64);
    assert_ne!(f.indices[0], f.indices[1]);
    assert_eq!(f.indices[0], f.indices[2]);
    let colors = f.palette.unwrap();
    let at = 3 * f.indices[0] as usize;
    assert_eq!(colors[at..at + 3], [255, 0, 0]);
}

fn gif_frame(f: WarmupFrame, scale: Option<u32>) -> GifFrame {
    GifFrame {
        rgba: f.rgba,
        src_width: f.width,
        src_height: f.height,
        captured_at: f.captured_at,
        default_delay_cs: 3,
        scale,
        global_palette: None,
    }
}

#[test]
fn gif_frames_carry_real_delays() {
    let mut stream = GifStream::new();
    let first = stream.encode_one_frame(gif_frame(chessboard(4, 0), None)).ok().unwrap();
    let head = first.open.unwrap();
    assert_eq!((head.width, head.height), (4, 4));
    assert!(head.global_palette.is_empty());
    assert_eq!(first.delay_cs, 3);
    let second = stream.encode_one_frame(gif_frame(chessboard(4, 104_000_000), None)).ok().unwrap();
    assert!(second.open.is_none());
    assert_eq!(second.delay_cs, 10);
    let third = stream.encode_one_frame(gif_frame(chessboard(4, 104_000_001), None)).ok().unwrap();
    assert_eq!(third.delay_cs, 1);
}

#[test]
fn playback_lasts_as_long_as_the_recording() {
    let mut stream = GifStream::new();
    let times = [0, 33_000_000, 66_000_000, 300_000_000, 1_300_000_000];
    let mut total = 0;
    for (i, t) in times.iter().enumerate() {
        let e = stream.encode_one_frame(gif_frame(chessboard(4, *t), None)).ok().unwrap();
        if i > 0 {
            total += 10 * e.delay_cs as i64;
        }
    }
    assert_eq!(total, 30 + 30 + 230 + 1000);
    assert!((total - 1300).abs() <= 10 * 4);
}

#[test]
fn gif_frames_are_scaled() {
    let mut stream = GifStream::new();
    let e = stream.encode_one_frame(gif_frame(frame([10, 200, 30, 255], 8, 0), Some(4))).ok().unwrap();
    let f = e.frame.ok().unwrap();
    assert_eq!((f.width, f.height), (4, 4));
    assert_eq!(f.indices.len(), 16);
    let colors = f.palette.unwrap();
    let at = 3 * f.indices[5] as usize;
    assert_eq!(colors[at..at + 3], [10, 200, 30]);
}

#[test]
fn gif_size_errors() {
    let mut stream = GifStream::new();
    let wide = GifFrame { src_width: 70_000, src_height: 0, rgba: vec![], ..gif_frame(chessboard(1, 0), None) };
    assert_eq!(stream.encode_one_frame(wide).err().unwrap().message, "gif width > 65535");
    let tall = GifFrame { src_width: 0, src_height: 70_000, rgba: vec![], ..gif_frame(chessboard(1, 0), None) };
    assert_eq!(stream.encode_one_frame(tall).err().unwrap().message, "gif height > 65535");
    assert!(stream.encode_one_frame(gif_frame(chessboard(1, 0), Some(0))).is_err());
    assert!(!stream.opened);
    let short = GifFrame { rgba: vec![0; 3], ..gif_frame(chessboard(4, 0), Some(2)) };
    let e = stream.encode_one_frame(short).ok().unwrap();
    assert!(e.frame.is_err());
    assert!(stream.opened);
}

#[test]
fn gif_header_holds_the_global_palette() {
    let palette = Arc::new(train_global_palette(&vec![chessboard(64, 0)]));
    let mut stream = GifStream::new();
    let f = GifFrame { global_palette: Some(palette), ..gif_frame(chessboard(4, 0), None) };
    let e = stream.encode_one_frame(f).ok().unwrap();
    assert_eq!(e.open.unwrap().global_palette.len(), 768);
    assert!(e.frame.ok().unwrap().palette.is_none());
}

fn apng_frame(f: WarmupFrame, scale: Option<u32>) -> ApngFrame {
    ApngFrame { rgba: f.rgba, src_width: f.width, src_height: f.height, captured_at: f.captured_at, scale }
}

#[test]
fn apng_images_share_a_canvas() {
    let first = apng_frame(frame([9, 8, 7, 255], 8, 0), Some(2));
    let mut canvas = ApngCanvas::open(&first).ok().unwrap();
    assert_eq!((canvas.width, canvas.height), (2, 2));
    let image = canvas.next_image(first).ok().unwrap();
    assert_eq!(image.delay_ms, 33);
    assert_eq!(image.rgba.len(), 16);
    assert_eq!(image.rgba[..4], [9, 8, 7, 255]);
    let other = apng_frame(frame([0; 4], 4, 1), None);
    assert_eq!(
        canvas.next_image(other).err().unwrap().message,
        "apng frame dims 4x4 != first frame 2x2"
    );
    let next = apng_frame(frame([1, 1, 1, 255], 2, 50_000_000), None);
    assert_eq!(canvas.next_image(next).ok().unwrap().delay_ms, 50);
    assert!(ApngCanvas::open(&apng_frame(frame([0; 4], 1, 0), Some(0))).is_err());
}

// ----------------- The hub, the command, the panel -----------------

#[test]
fn requests_drain_in_order() {
    let mut hub = CaptureHub::new();
    enqueue(&mut hub, CaptureRequest::Stop);
    enqueue(&mut hub, CaptureRequest::OneShot { stage: CaptureStage::Pre, dir: None, name: None });
    let taken = drain_requests(&mut hub);
    assert_eq!(taken.len(), 2);
    assert!(matches!(taken[0], CaptureRequest::Stop));
    assert!(drain_requests(&mut hub).is_empty());
    publish_status(&mut hub, Some("REC 1".to_string()));
    assert_eq!(current_status(&hub).as_deref(), Some("REC 1"));
    assert!(toggle_panel_global(&mut hub));
    assert!(!toggle_panel_global(&mut hub));
}

fn run(hub: &mut CaptureHub, args: &[&str]) -> Vec<(LineKind, String)> {
    let mut out = ConsoleWriter::new();
    assert!(run_capture(hub, args, &mut out).is_ok());
    out.lines.into_iter().map(|l| (l.kind, l.text)).collect()
}

#[test]
fn capture_command_queues_requests() {
    let mut hub = CaptureHub::new();
    let lines = run(&mut hub, &["png", "both", "out"]);
    assert_eq!(lines, vec![(LineKind::Output, "queued one-shot (Both)".to_string())]);
    let lines = run(&mut hub, &["apng", "fps=24"]);
    assert_eq!(
        lines,
        vec![(LineKind::Output, "started APNG stream (Post, fps=24, scale=native)".to_string())]
    );
    let lines = run(&mut hub, &["gif", "palette=global", "scale=480"]);
    assert_eq!(lines.len(), 3);
    assert_eq!(lines[1].0, LineKind::Error);
    assert_eq!(lines[2].1, "started GIF stream (Post, fps=default, scale=480, palette=Global)");
    assert_eq!(run(&mut hub, &["frames", "pre"])[0].1, "started PNG sequence (Pre)");
    assert_eq!(run(&mut hub, &["stop"])[0].1, "stop queued");
    assert_eq!(run(&mut hub, &["toggle", "apng", "pre"])[0].1, "toggle queued (Apng, Pre)");
    assert_eq!(run(&mut hub, &["panel"])[0].1, "panel opened");
    assert_eq!(run(&mut hub, &["panel"])[0].1, "panel closed");
    assert_eq!(hub.queue.len(), 6);
    assert_eq!(run(&mut hub, &[])[0].1, format!("usage: {}", capture_help()));
    assert_eq!(run(&mut hub, &["what"])[0].1, format!("unknown sub-command `what`. {}", capture_help()));
    assert_eq!(hub.queue.len(), 6);
    match &hub.queue[0] {
        CaptureRequest::OneShot { stage, dir, name } => {
            assert_eq!(*stage, CaptureStage::Both);
            assert_eq!(dir.as_deref(), Some("out"));
            assert!(name.is_none());
        }
        _ => panic!("expected a one-shot"),
    }
}

#[test]
fn default_hotkeys() {
    let mut c = Console::<u32>::new();
    bind_default_hotkeys(&mut c);
    let bound = c.bound_lines(&vec![Key::F(12), Key::F(9), Key::F(11), Key::F(10)]);
    assert_eq!(bound.len(), 3);
    assert!(bound.contains(&"capture png post".to_string()));
    assert!(bound.contains(&"capture toggle gif post".to_string()));
    assert!(bound.contains(&"capture panel".to_string()));
}

#[test]
fn panel_and_console_agree() {
    let mut hub = CaptureHub::new();
    let mut panel = CapturePanel::new();
    assert!(!panel.show(&mut hub));
    toggle_panel_global(&mut hub);
    assert!(panel.show(&mut hub));
    panel.toggle(&mut hub);
    assert!(!hub.panel_open);
    assert!(!panel.show(&mut hub));
    panel.toggle(&mut hub);
    panel.window_closed(&mut hub, false);
    assert!(!panel.show(&mut hub));
}

#[test]
fn panel_buttons() {
    let mut hub = CaptureHub::new();
    let mut panel = CapturePanel::new();
    panel.format = CaptureFormat::Gif;
    panel.scale_enabled = true;
    panel.scale_width = 320;
    panel.fps = 12;
    panel.body(&mut hub, true, true);
    assert_eq!(hub.queue.len(), 2);
    match &hub.queue[1] {
        CaptureRequest::StartSequence { params } => {
            assert_eq!(params.format, CaptureFormat::Gif);
            assert_eq!(params.scale, Some(320));
            assert_eq!(params.fps, Some(12));
            assert!(params.name.is_none());
        }
        _ => panic!("expected a start"),
    }
    assert_eq!(status_label(&hub), "Status: Idle");
    publish_status(&mut hub, Some("REC 2".to_string()));
    assert_eq!(status_label(&hub), "Status: REC 2");
    panel.body(&mut hub, false, true);
    assert!(matches!(hub.queue[2], CaptureRequest::Stop));
    assert!(panel.palette_enabled() && panel.scale_supported() && !panel.stage_enabled());
}

// ----------------- Sessions -----------------

fn params(format: CaptureFormat, palette: PaletteMode) -> SequenceParams {
    SequenceParams {
        format,
        stage: CaptureStage::Both,
        dir: None,
        name: Some("clip".to_string()),
        fps: None,
        scale: None,
        palette,
    }
}

fn start(c: &mut Capture, p: SequenceParams) -> String {
    match c.apply_request(CaptureRequest::StartSequence { params: p }, 7) {
        Step::Start { plan } => c.start_sequence(plan).unwrap(),
        _ => panic!("expected a start"),
    }
}

fn one_action(mut actions: Vec<FrameAction>) -> FrameAction {
    assert_eq!(actions.len(), 1);
    actions.remove(0)
}

fn written(actions: &[FrameAction]) -> Vec<&str> {
    actions
        .iter()
        .map(|a| match a {
            FrameAction::WritePng { path, .. } => path.as_str(),
            _ => panic!("expected a file"),
        })
        .collect()
}

fn logged(step: Step) -> String {
    match step {
        Step::Log { line } => line,
        _ => panic!("expected a line"),
    }
}

#[test]
fn one_shot_writes_each_stage_once() {
    let mut c = Capture::new("demo");
    assert!(!c.should_capture(0));
    let one = CaptureRequest::OneShot { stage: CaptureStage::Both, dir: None, name: None };
    assert_eq!(logged(c.apply_request(one, 1700)), "capture: one-shot queued (Both)");
    assert_eq!(c.status().as_deref(), Some("snap"));
    assert!(c.wants_pre() && c.wants_post() && c.should_capture(0));
    let pre = c.consume_frame(true, frame([0; 4], 1, 0));
    assert_eq!(written(&pre), ["captures/demo_1700_pre.png"]);
    assert!(c.consume_frame(true, frame([0; 4], 1, 0)).is_empty());
    let post = c.consume_frame(false, frame([0; 4], 1, 0));
    assert_eq!(written(&post), ["captures/demo_1700_post.png"]);
    c.advance_frame(5);
    assert!(c.one_shot.is_none() && c.sequence.is_none());
}

#[test]
fn png_sequence_numbers_its_frames() {
    let mut c = Capture::new("demo");
    let line = start(&mut c, params(CaptureFormat::Png, PaletteMode::Local));
    assert_eq!(line, "capture: sequence started (Png, Both, fps=unlimited, palette=Local)");
    for i in 0..3 {
        match one_action(c.consume_frame(false, frame([0; 4], 1, 0))) {
            FrameAction::WritePng { path, .. } => {
                assert_eq!(path, format!("captures/clip/post_{i:06}.png"))
            }
            _ => panic!("expected a file"),
        }
        c.advance_frame(i);
    }
    assert_eq!(c.status().as_deref(), Some("REC 3"));
    assert_eq!(logged(c.stop()), "capture: PNG sequence stopped, 3 frame(s) at captures/clip");
    assert_eq!(logged(c.stop()), "capture: stop with no active session (no-op)");
}

#[test]
fn toggle_stops_and_starts() {
    let mut c = Capture::new("demo");
    let toggle = || CaptureRequest::Toggle { params: params(CaptureFormat::Apng, PaletteMode::Local) };
    match c.apply_request(toggle(), 1) {
        Step::Start { plan } => {
            assert_eq!(plan.sequence.stage, CaptureStage::Post);
            assert_eq!(plan.fps, Some(30));
            c.start_sequence(plan).unwrap();
        }
        _ => panic!("expected a start"),
    }
    match c.apply_request(toggle(), 2) {
        Step::StopApng { path } => assert_eq!(path, "captures/clip.apng"),
        _ => panic!("expected a stop"),
    }
    assert!(c.one_shot.is_none() && c.sequence.is_none());
}

#[test]
fn captures_keep_their_interval() {
    let mut c = Capture::new("demo");
    start(&mut c, params(CaptureFormat::Gif, PaletteMode::Local));
    assert!(c.should_capture(0));
    c.advance_frame(0);
    assert!(!c.should_capture(33_333_332));
    assert!(c.should_capture(33_333_333));
}

#[test]
fn global_palette_warms_up_then_sends_every_frame() {
    let mut c = Capture::new("demo");
    start(&mut c, params(CaptureFormat::Gif, PaletteMode::Global));
    assert_eq!(c.status().as_deref(), Some("WARMING 0/30"));
    for i in 0..GIF_WARMUP_FRAMES - 1 {
        match one_action(c.consume_frame(false, chessboard(4, i as u64))) {
            FrameAction::SendGif { frames } => assert!(frames.is_empty()),
            _ => panic!("expected a gif"),
        }
        c.advance_frame(i as u64);
    }
    match one_action(c.consume_frame(false, chessboard(4, 29))) {
        FrameAction::SendGif { frames } => {
            assert_eq!(frames.len(), 30);
            assert!(frames.iter().all(|f| f.global_palette.is_some()));
            assert_eq!(frames[3].captured_at, 3);
        }
        _ => panic!("expected a gif"),
    }
    c.advance_frame(29);
    assert_eq!(c.status().as_deref(), Some("REC 30"));
}

#[test]
fn stopping_early_flushes_the_warmup() {
    let mut c = Capture::new("demo");
    start(&mut c, params(CaptureFormat::Gif, PaletteMode::Global));
    let _ = c.consume_frame(false, chessboard(4, 1));
    let _ = c.consume_frame(false, chessboard(4, 2));
    match c.stop() {
        Step::StopGif { path, flush, dropped, .. } => {
            assert_eq!(path, "captures/clip.gif");
            assert_eq!(flush.len(), 2);
            assert_eq!(dropped, 0);
        }
        _ => panic!("expected a stop"),
    }
}

#[test]
fn drops_are_reported_at_powers_of_two() {
    let mut c = Capture::new("demo");
    assert_eq!(c.note_dropped(), None);
    start(&mut c, params(CaptureFormat::Gif, PaletteMode::Local));
    let seen: Vec<Option<u32>> = (0..5).map(|_| c.note_dropped()).collect();
    assert_eq!(seen, vec![Some(1), Some(2), None, Some(4), None]);
    assert_eq!(c.status().as_deref(), Some("REC 0 (5 dropped)"));
}

#[test]
fn session_texts() {
    assert_eq!(join_path("a", "b.png"), "a/b.png");
    assert_eq!(join_path("a/", "b.png"), "a/b.png");
    assert_eq!(join_path("", "b.png"), "b.png");
    assert_eq!(join_path("a", "/b.png"), "/b.png");
    assert_eq!(default_name("demo", 12), "demo_12");
    assert_eq!(
        gif_stopped_line(3, 1, "x.gif"),
        "capture: GIF stream stopped, 3 frame(s), 1 dropped under backpressure encoding in background -> x.gif"
    );
    assert_eq!(
        apng_stopped_line(2, "x.apng"),
        "capture: APNG stream stopped, 2 frame(s) buffered; assembling and writing in background -> x.apng"
    );
    assert_eq!(start_failed_line("no dir"), "capture: failed to start sequence: no dir");
}

fn one_shot() -> CaptureRequest {
    CaptureRequest::OneShot {
        stage: CaptureStage::Post,
        dir: None,
        name: Some("still".to_string()),
    }
}

#[test]
fn a_sequence_goes_on_beside_a_one_shot() {
    let mut c = Capture::new("demo");
    start(&mut c, params(CaptureFormat::Png, PaletteMode::Local));
    let _ = c.consume_frame(false, frame([0; 4], 1, 0));
    c.advance_frame(0);
    assert_eq!(logged(c.apply_request(one_shot(), 8)), "capture: one-shot queued (Post)");
    assert_eq!(c.status().as_deref(), Some("REC 1"));
    let both = c.consume_frame(false, frame([7; 4], 1, 1));
    assert_eq!(written(&both), ["captures/still_post.png", "captures/clip/post_000001.png"]);
    for action in &both {
        match action {
            FrameAction::WritePng { frame, .. } => assert_eq!(frame.rgba, [7; 4]),
            _ => panic!("expected a file"),
        }
    }
    c.advance_frame(1);
    assert!(c.one_shot.is_none());
    let next = c.consume_frame(false, frame([0; 4], 1, 2));
    assert_eq!(written(&next), ["captures/clip/post_000002.png"]);
    c.advance_frame(2);
    assert_eq!(
        logged(c.apply_request(CaptureRequest::Stop, 9)),
        "capture: PNG sequence stopped, 3 frame(s) at captures/clip"
    );
}

#[test]
fn stop_ends_the_sequence_and_keeps_the_waiting_one_shot() {
    let mut c = Capture::new("demo");
    start(&mut c, params(CaptureFormat::Png, PaletteMode::Local));
    let _ = c.apply_request(one_shot(), 8);
    assert_eq!(
        logged(c.apply_request(CaptureRequest::Stop, 9)),
        "capture: PNG sequence stopped, 0 frame(s) at captures/clip"
    );
    assert_eq!(c.status().as_deref(), Some("snap"));
    assert_eq!(
        logged(c.apply_request(CaptureRequest::Stop, 9)),
        "capture: pending one-shot cancelled"
    );
    assert_eq!(c.status(), None);
}

#[test]
fn a_one_shot_does_not_hurry_a_slow_sequence() {
    let mut c = Capture::new("demo");
    start(&mut c, params(CaptureFormat::Gif, PaletteMode::Local));
    let _ = c.consume_frame(false, frame([0; 4], 1, 0));
    c.advance_frame(0);
    let _ = c.apply_request(one_shot(), 8);
    assert!(c.should_capture(1));
    let early = c.consume_frame(false, frame([0; 4], 1, 1));
    assert_eq!(written(&early), ["captures/still_post.png"]);
    c.advance_frame(1);
    assert_eq!(c.status().as_deref(), Some("REC 1"));
    assert!(!c.should_capture(33_333_332));
    assert!(c.should_capture(33_333_333));
}

#[test]
fn a_second_start_is_refused() {
    let mut c = Capture::new("demo");
    let plan = match c.apply_request(
        CaptureRequest::StartSequence { params: params(CaptureFormat::Gif, PaletteMode::Local) },
        1,
    ) {
        Step::Start { plan } => plan,
        _ => panic!("expected a start"),
    };
    start(&mut c, params(CaptureFormat::Png, PaletteMode::Local));
    let again =
        CaptureRequest::StartSequence { params: params(CaptureFormat::Apng, PaletteMode::Local) };
    assert_eq!(
        logged(c.apply_request(again, 2)),
        "capture: failed to start sequence: a sequence is already running"
    );
    match c.start_sequence(plan) {
        Err(e) => assert_eq!(e.message, "a sequence is already running"),
        Ok(_) => panic!("expected an error"),
    }
    assert_eq!(logged(c.stop()), "capture: PNG sequence stopped, 0 frame(s) at captures/clip");
}

#[test]
fn a_sequence_starts_beside_a_waiting_one_shot() {
    let mut c = Capture::new("demo");
    let _ = c.apply_request(one_shot(), 8);
    start(&mut c, params(CaptureFormat::Png, PaletteMode::Local));
    let both = c.consume_frame(false, frame([0; 4], 1, 0));
    assert_eq!(written(&both), ["captures/still_post.png", "captures/clip/post_000000.png"]);
}

#[test]
fn sides_up_to_the_limit_are_resampled() {
    let wide = MAX_RESIZE_SIDE;
    let mut canvas = ApngCanvas { width: 2, height: 1, last_captured_at: None };
    let image = canvas
        .next_image(ApngFrame {
            rgba: vec![9; wide as usize * 4],
            src_width: wide,
            src_height: 1,
            captured_at: 0,
            scale: Some(2),
        })
        .unwrap();
    assert_eq!(image.rgba.len(), 8);
    assert!(image.rgba.iter().all(|b| *b == 9));
}
