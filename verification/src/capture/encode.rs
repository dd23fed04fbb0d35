//! What an animation encoder is fed: frame sizes, delays and pixels.
//!
//! Times are in nanoseconds since the session's start. A frame's delay is the time since
//! the frame encoded before it, so that when frames are dropped the next one stays longer
//! and playback takes as long as the recording did.

use std::sync::Arc;

use vstd::prelude::*;

use crate::capture::palette;
use crate::capture::palette::{
    index_frame, quantize_frame, resize_rgba, GlobalPalette, IndexedFrame, SAMPLE_FACTOR,
};
use crate::capture::pixels;
use crate::capture::pixels::{dims_string, scaled_dims, CaptureError};

verus! {

/// Whole milliseconds from `prev` to `now`; none if time ran backwards.
pub open spec fn elapsed_ms(prev: u64, now: u64) -> nat {
    if now >= prev {
        ((now - prev) / 1_000_000) as nat
    } else {
        0
    }
}

fn millis_between(prev: u64, now: u64) -> (r: u64)
    ensures
        r == elapsed_ms(prev, now),
        r <= u64::MAX / 1_000_000,
{
    if now >= prev {
        (now - prev) / 1_000_000
    } else {
        0
    }
}

/// `n` kept between 1 and the greatest 16-bit number.
pub open spec fn clamped_delay(n: nat) -> nat {
    if n < 1 {
        1
    } else if n > u16::MAX {
        u16::MAX as nat
    } else {
        n
    }
}

/// The delay of a GIF frame in hundredths of a second: the time since the frame before it,
/// rounded to nearest; the stream's default for the first frame.
pub open spec fn gif_delay(last: Option<u64>, now: u64, default_delay: u16) -> nat {
    match last {
        None => default_delay as nat,
        Some(prev) => clamped_delay(((elapsed_ms(prev, now) + 5) / 10) as nat),
    }
}

/// The delay of an APNG frame in milliseconds: the time since the frame before it, 33 for
/// the first frame.
pub open spec fn apng_delay(last: Option<u64>, now: u64) -> nat {
    match last {
        None => 33,
        Some(prev) => clamped_delay(elapsed_ms(prev, now)),
    }
}

fn gif_delay_of(last: Option<u64>, now: u64, default_delay: u16) -> (r: u16)
    ensures
        r == gif_delay(last, now, default_delay),
{
    match last {
        None => default_delay,
        Some(prev) => {
            let cs: u64 = (millis_between(prev, now) + 5) / 10;
            if cs < 1 {
                1
            } else if cs > 65535 {
                65535
            } else {
                cs as u16
            }
        },
    }
}

fn apng_delay_of(last: Option<u64>, now: u64) -> (r: u16)
    ensures
        r == apng_delay(last, now),
{
    match last {
        None => 33,
        Some(prev) => {
            let ms: u64 = millis_between(prev, now);
            if ms < 1 {
                1
            } else if ms > 65535 {
                65535
            } else {
                ms as u16
            }
        },
    }
}

// ---------------------------------------------------------------------------
// GIF
// ---------------------------------------------------------------------------

/// One frame's worth of work for the GIF encoder.
pub struct GifFrame {
    pub rgba: Vec<u8>,
    pub src_width: u32,
    pub src_height: u32,
    pub captured_at: u64,
    /// Delay of the very first frame, which has no previous time to differ from.
    pub default_delay_cs: u16,
    pub scale: Option<u32>,
    /// The stream's palette; `None` to quantize each frame on its own.
    pub global_palette: Option<Arc<GlobalPalette>>,
}

impl GifFrame {
    pub open spec fn out_size(&self) -> (u32, u32) {
        pixels::output_size(self.src_width, self.src_height, self.scale)
    }

    /// Is a scaled frame of a size that can be resampled, and does an unscaled frame that
    /// gets a palette of its own hold all of its pixels?
    pub open spec fn encodable(&self) -> bool {
        let (w, h) = self.out_size();
        match self.scale {
            Some(_) => palette::resizable(self.src_width, self.src_height, w, h),
            None => self.global_palette is None ==> self.rgba@.len() == w * h * 4,
        }
    }
}

/// How a GIF file opens: its size and the palette that frames without one use.
pub struct GifHeader {
    pub width: u16,
    pub height: u16,
    pub global_palette: Vec<u8>,
}

/// What to write for one frame: the header before the first one, then the frame with its
/// delay, or the error that ends the stream.
pub struct EncodedGif {
    pub open: Option<GifHeader>,
    pub delay_cs: u16,
    pub frame: Result<IndexedFrame, CaptureError>,
}

/// What a GIF stream remembers between frames.
pub struct GifStream {
    pub opened: bool,
    pub last_captured_at: Option<u64>,
}

/// The bytes of the palette that a GIF file opens with.
pub open spec fn header_palette(p: Option<Arc<GlobalPalette>>) -> Seq<u8> {
    match p {
        Some(g) => g.colors(),
        None => Seq::empty(),
    }
}

/// Why a frame's size cannot be encoded, if so: a size that cannot be scaled, or a side
/// beyond 16 bits.
pub open spec fn gif_size_error(f: GifFrame) -> Option<Seq<char>> {
    if !pixels::scalable(f.src_width, f.src_height, f.scale) {
        Some(pixels::bad_scale(f.src_width, f.src_height, f.scale->0))
    } else if f.out_size().0 > u16::MAX {
        Some("gif width > 65535"@)
    } else if f.out_size().1 > u16::MAX {
        Some("gif height > 65535"@)
    } else {
        None
    }
}

/// Shown for a buffer with too few pixels.
pub open spec fn size_mismatch(w: u32, h: u32) -> Seq<char> {
    "RGBA size mismatch at "@ + pixels::dims_text(w as nat, h as nat)
}

fn size_mismatch_error(w: u32, h: u32) -> (r: CaptureError)
    ensures
        r.message@ == size_mismatch(w, h),
{
    let mut s = "RGBA size mismatch at ".to_owned();
    s.append(dims_string(w, h).as_str());
    CaptureError { message: s }
}

/// May `out` be the pixels of a frame at its output size? Without a scale they are the
/// frame's own; with one they are resampled from them, or copied where the size stays.
pub open spec fn at_output_size(
    rgba: Seq<u8>,
    w: u32,
    h: u32,
    scale: Option<u32>,
    out: Seq<u8>,
) -> bool {
    let size = pixels::output_size(w, h, scale);
    match scale {
        None => out == rgba,
        Some(_) => {
            &&& palette::lanczos3_outcome(rgba, w, h, size.0, size.1, out)
            &&& out.len() == size.0 * size.1 * 4
            &&& size == (w, h) ==> out == rgba.take(w * h * 4)
        },
    }
}

/// The frame in palette colors: against the stream's palette if there is one, else against
/// a palette of its own.
pub open spec fn in_palette(
    f: GifFrame,
    buf: Seq<u8>,
) -> (Seq<u8>, Option<Seq<u8>>, Option<u8>) {
    match f.global_palette {
        Some(p) => (palette::indexed(*p, pixels::with_hard_alpha(buf)), None, None),
        None => palette::gif_quantized(
            f.out_size().0 as u16,
            f.out_size().1 as u16,
            buf,
            SAMPLE_FACTOR as int,
        ),
    }
}

/// Turn pixels that are already at their output size into palette colors.
pub fn palette_frame(w: u16, h: u16, buf: Vec<u8>, global: &Option<Arc<GlobalPalette>>) -> (r:
    IndexedFrame)
    requires
        *global is None ==> buf@.len() == w * h * 4,
    ensures
        r.width == w,
        r.height == h,
        r.content() == match *global {
            Some(p) => (
                palette::indexed(*p, pixels::with_hard_alpha(buf@)),
                None::<Seq<u8>>,
                None::<u8>,
            ),
            None => palette::gif_quantized(w, h, buf@, SAMPLE_FACTOR as int),
        },
{
    match global {
        Some(p) => index_frame(w, h, buf, &**p),
        None => quantize_frame(w, h, buf),
    }
}

impl GifStream {
    pub fn new() -> (r: GifStream)
        ensures
            !r.opened,
            r.last_captured_at is None,
    {
        GifStream { opened: false, last_captured_at: None }
    }

    /// Prepare one frame for the encoder.
    ///
    /// A size that cannot be encoded is an error and changes nothing. Otherwise the first
    /// frame opens the file, the delay is taken from the time since the last frame, and the
    /// pixels are scaled and reduced to palette colors; a buffer too short to scale is
    /// reported in the frame's place.
    pub fn encode_one_frame(&mut self, frame: GifFrame) -> (r: Result<EncodedGif, CaptureError>)
        requires
            gif_size_error(frame) is None ==> frame.encodable(),
        ensures
            pixels::failure(r) == gif_size_error(frame),
            match r {
                Err(_) => *final(self) == *old(self),
                Ok(e) => {
                    &&& final(self).opened
                    &&& final(self).last_captured_at == Some(frame.captured_at)
                    &&& e.delay_cs == gif_delay(
                        old(self).last_captured_at,
                        frame.captured_at,
                        frame.default_delay_cs,
                    )
                    &&& match e.open {
                        None => old(self).opened,
                        Some(head) => !old(self).opened && head.width == frame.out_size().0
                            && head.height == frame.out_size().1 && head.global_palette@
                            == header_palette(frame.global_palette),
                    }
                    &&& match e.frame {
                        Err(err) => frame.scale is Some && frame.src_width * frame.src_height * 4
                            > frame.rgba@.len() && err.message@ == size_mismatch(
                            frame.src_width,
                            frame.src_height,
                        ),
                        Ok(f) => {
                            &&& frame.scale is Some ==> frame.src_width * frame.src_height * 4
                                <= frame.rgba@.len()
                            &&& f.width == frame.out_size().0
                            &&& f.height == frame.out_size().1
                            &&& exists|buf: Seq<u8>| #[trigger]
                                at_output_size(
                                    frame.rgba@,
                                    frame.src_width,
                                    frame.src_height,
                                    frame.scale,
                                    buf,
                                ) && f.content() == in_palette(frame, buf)
                        },
                    }
                },
            },
    {
        let (out_w, out_h) = match scaled_dims(frame.src_width, frame.src_height, frame.scale) {
            Ok(d) => d,
            Err(e) => {
                return Err(e);
            },
        };
        if out_w > 65535 {
            return Err(CaptureError { message: "gif width > 65535".to_owned() });
        }
        if out_h > 65535 {
            return Err(CaptureError { message: "gif height > 65535".to_owned() });
        }
        let w: u16 = out_w as u16;
        let h: u16 = out_h as u16;
        let open = if self.opened {
            None
        } else {
            let bytes: Vec<u8> = match &frame.global_palette {
                Some(p) => p.color_map_rgb(),
                None => Vec::new(),
            };
            assert(bytes@ =~= header_palette(frame.global_palette));
            Some(GifHeader { width: w, height: h, global_palette: bytes })
        };
        let delay_cs = gif_delay_of(
            self.last_captured_at,
            frame.captured_at,
            frame.default_delay_cs,
        );
        self.opened = true;
        self.last_captured_at = Some(frame.captured_at);
        let ghost rgba = frame.rgba@;
        let buf: Vec<u8> = match frame.scale {
            Some(_) => {
                match resize_rgba(frame.rgba, frame.src_width, frame.src_height, out_w, out_h) {
                    Some(b) => b,
                    None => {
                        let err = size_mismatch_error(frame.src_width, frame.src_height);
                        return Ok(EncodedGif { open, delay_cs, frame: Err(err) });
                    },
                }
            },
            None => frame.rgba,
        };
        assert(at_output_size(rgba, frame.src_width, frame.src_height, frame.scale, buf@));
        let f = palette_frame(w, h, buf, &frame.global_palette);
        Ok(EncodedGif { open, delay_cs, frame: Ok(f) })
    }
}

// ---------------------------------------------------------------------------
// APNG
// ---------------------------------------------------------------------------

/// One captured frame of an APNG recording.
pub struct ApngFrame {
    pub rgba: Vec<u8>,
    pub src_width: u32,
    pub src_height: u32,
    pub captured_at: u64,
    pub scale: Option<u32>,
}

impl ApngFrame {
    pub open spec fn out_size(&self) -> (u32, u32) {
        pixels::output_size(self.src_width, self.src_height, self.scale)
    }

    /// Is a scaled frame of a size that can be resampled?
    pub open spec fn encodable(&self) -> bool {
        self.scale is Some ==> palette::resizable(
            self.src_width,
            self.src_height,
            self.out_size().0,
            self.out_size().1,
        )
    }
}

/// One image of an APNG file.
pub struct ApngImage {
    pub rgba: Vec<u8>,
    pub delay_ms: u16,
}

/// The canvas of an APNG file, fixed by its first frame, and the time of its last frame.
pub struct ApngCanvas {
    pub width: u32,
    pub height: u32,
    pub last_captured_at: Option<u64>,
}

/// Why a frame does not go onto a canvas, if so.
pub open spec fn apng_frame_error(c: ApngCanvas, f: ApngFrame) -> Option<Seq<char>> {
    if !pixels::scalable(f.src_width, f.src_height, f.scale) {
        Some(pixels::bad_scale(f.src_width, f.src_height, f.scale->0))
    } else if f.out_size() != (c.width, c.height) {
        Some(
            "apng frame dims "@ + pixels::dims_text(f.out_size().0 as nat, f.out_size().1 as nat)
                + " != first frame "@ + pixels::dims_text(c.width as nat, c.height as nat),
        )
    } else if f.scale is Some && f.src_width * f.src_height * 4 > f.rgba@.len() {
        Some(size_mismatch(f.src_width, f.src_height))
    } else {
        None
    }
}

impl ApngCanvas {
    /// The canvas that a recording's first frame asks for.
    pub fn open(first: &ApngFrame) -> (r: Result<ApngCanvas, CaptureError>)
        ensures
            match r {
                Ok(c) => pixels::scalable(first.src_width, first.src_height, first.scale) && (
                c.width, c.height) == first.out_size() && c.last_captured_at is None,
                Err(e) => !pixels::scalable(first.src_width, first.src_height, first.scale)
                    && e.message@ == pixels::bad_scale(
                    first.src_width,
                    first.src_height,
                    first.scale->0,
                ),
            },
    {
        match scaled_dims(first.src_width, first.src_height, first.scale) {
            Ok((width, height)) => Ok(ApngCanvas { width, height, last_captured_at: None }),
            Err(e) => Err(e),
        }
    }

    /// Prepare one frame for the encoder. An error leaves the canvas as it was.
    pub fn next_image(&mut self, frame: ApngFrame) -> (r: Result<ApngImage, CaptureError>)
        requires
            pixels::scalable(frame.src_width, frame.src_height, frame.scale)
                ==> frame.encodable(),
        ensures
            pixels::failure(r) == apng_frame_error(*old(self), frame),
            match r {
                Err(_) => *final(self) == *old(self),
                Ok(image) => {
                    &&& *final(self) == (ApngCanvas {
                        last_captured_at: Some(frame.captured_at),
                        ..*old(self)
                    })
                    &&& image.delay_ms == apng_delay(
                        old(self).last_captured_at,
                        frame.captured_at,
                    )
                    &&& at_output_size(
                        frame.rgba@,
                        frame.src_width,
                        frame.src_height,
                        frame.scale,
                        image.rgba@,
                    )
                },
            },
    {
        let (fw, fh) = match scaled_dims(frame.src_width, frame.src_height, frame.scale) {
            Ok(d) => d,
            Err(e) => {
                return Err(e);
            },
        };
        if fw != self.width || fh != self.height {
            let mut s = "apng frame dims ".to_owned();
            s.append(dims_string(fw, fh).as_str());
            s.append(" != first frame ");
            s.append(dims_string(self.width, self.height).as_str());
            return Err(CaptureError { message: s });
        }
        let rgba: Vec<u8> = match frame.scale {
            Some(_) => {
                match resize_rgba(frame.rgba, frame.src_width, frame.src_height, fw, fh) {
                    Some(b) => b,
                    None => {
                        return Err(size_mismatch_error(frame.src_width, frame.src_height));
                    },
                }
            },
            None => frame.rgba,
        };
        let delay_ms = apng_delay_of(self.last_captured_at, frame.captured_at);
        self.last_captured_at = Some(frame.captured_at);
        Ok(ApngImage { rgba, delay_ms })
    }
}

// ---------------------------------------------------------------------------
// Playback
// ---------------------------------------------------------------------------

/// The sum of the delays, in milliseconds, of GIF frames captured at `times`, from the
/// second frame on.
pub open spec fn gif_playback(times: Seq<u64>) -> nat
    decreases times.len(),
{
    if times.len() < 2 {
        0
    } else {
        gif_playback(times.drop_last()) + 10 * gif_delay(
            Some(times[times.len() - 2]),
            times.last(),
            0,
        )
    }
}

/// The times do not fall, and no two neighbours lie further apart than the longest delay
/// that the file format can hold, give or take its unit.
pub open spec fn paced(times: Seq<u64>) -> bool {
    forall|i: int|
        0 <= i < times.len() - 1 ==> 0 <= times[i + 1] - #[trigger] times[i] <= 655_360_000_000
}

/// Playback takes as long as the recording did, to within a hundredth of a second a frame,
/// whichever frames were kept.
pub proof fn playback_matches_recording(times: Seq<u64>)
    requires
        times.len() > 0,
        paced(times),
    ensures
        1_000_000 * gif_playback(times) <= times.last() - times[0] + 10_000_000 * (times.len() - 1),
        times.last() - times[0] <= 1_000_000 * gif_playback(times) + 10_000_000 * (times.len() - 1),
    decreases times.len(),
{
    if times.len() >= 2 {
        let t = times.drop_last();
        assert(paced(t)) by {
            assert forall|i: int| 0 <= i < t.len() - 1 implies 0 <= t[i + 1] - #[trigger] t[i]
                <= 655_360_000_000 by {
                assert(t[i] == times[i]);
                assert(t[i + 1] == times[i + 1]);
            }
        }
        playback_matches_recording(t);
        let prev = times[times.len() - 2];
        let now = times.last();
        assert(t.last() == prev);
        assert(0 <= times[times.len() - 2 + 1] - prev <= 655_360_000_000);
        let ms = elapsed_ms(prev, now);
        assert(ms * 1_000_000 <= now - prev < (ms + 1) * 1_000_000);
        let cs = ((ms + 5) / 10) as nat;
        assert(10 * cs <= ms + 5);
        assert(ms + 5 <= 10 * cs + 9);
    }
}

/// The sum of delays.
pub open spec fn total(delays: Seq<u16>) -> nat
    decreases delays.len(),
{
    if delays.len() == 0 {
        0
    } else {
        total(delays.drop_last()) + delays.last() as nat
    }
}

/// Delays that are each off by at most `off` are together off by at most `off` a frame.
proof fn delays_add_up(times: Seq<u64>, delays: Seq<u16>, unit: int, off: int)
    requires
        times.len() > 0,
        delays.len() == times.len(),
        forall|i: int, j: int|
            #![trigger times[i], delays[j]]
            0 <= i && j == i + 1 && j < times.len() ==> -off <= unit * delays[j] - (times[j]
                - times[i]) <= off,
    ensures
        unit * total(delays.skip(1)) - (times.last() - times[0]) <= off * (times.len() - 1),
        times.last() - times[0] - unit * total(delays.skip(1)) <= off * (times.len() - 1),
    decreases times.len(),
{
    let n = times.len() as int;
    let rest = delays.skip(1);
    if n == 1 {
        assert(rest =~= Seq::empty());
        assert(unit * 0 == 0) by (nonlinear_arith);
        assert(off * 0 == 0) by (nonlinear_arith);
    } else {
        let t = times.drop_last();
        let d = delays.drop_last();
        assert forall|i: int, j: int|
            #![trigger t[i], d[j]]
            0 <= i && j == i + 1 && j < t.len() implies -off <= unit * d[j] - (t[j] - t[i])
            <= off by {
            assert(t[i] == times[i]);
            assert(t[j] == times[j]);
            assert(d[j] == delays[j]);
        }
        delays_add_up(t, d, unit, off);
        assert(rest.drop_last() =~= d.skip(1));
        let last = delays[n - 1];
        assert(rest.last() == last);
        let before = total(d.skip(1));
        assert(unit * (before + last) == unit * before + unit * last) by (nonlinear_arith);
        assert(off * (n - 1) == off * (n - 2) + off) by (nonlinear_arith);
        assert(-off <= unit * delays[n - 1] - (times[n - 1] - times[n - 2]) <= off);
        assert(t.last() == times[n - 2]);
    }
}

/// A frame plays until the next one: on a canvas that has an image, the next image's delay is
/// the time since that one, to the millisecond; its own time is what the delay after it goes
/// by. The first image, which has none before it, gets a delay that does not depend on when
/// it was captured.
pub proof fn apng_delays_follow_the_frames()
    ensures
        forall|c: &mut ApngCanvas, f: ApngFrame, r: Result<ApngImage, CaptureError>| #[trigger]
            call_ensures(ApngCanvas::next_image, (c, f), r) && r is Ok ==> {
                let delay = r->Ok_0.delay_ms as int;
                &&& delay >= 1
                &&& final(c).last_captured_at == Some(f.captured_at)
                &&& c.last_captured_at is None ==> delay == 33
                &&& c.last_captured_at is Some && 0 <= f.captured_at - c.last_captured_at->0
                    <= 65_535_000_000 ==> -1_000_000 <= 1_000_000 * delay - (f.captured_at
                    - c.last_captured_at->0) <= 1_000_000
                &&& c.last_captured_at is Some && f.captured_at - c.last_captured_at->0
                    > 65_535_000_000 ==> delay == 65_535
                &&& c.last_captured_at is Some && 1_000_000 <= f.captured_at
                    - c.last_captured_at->0 <= 65_535_000_000 ==> 0 <= f.captured_at
                    - c.last_captured_at->0 - 1_000_000 * delay < 1_000_000
            },
        forall|first: &ApngFrame, r: Result<ApngCanvas, CaptureError>| #[trigger]
            call_ensures(ApngCanvas::open, (first,), r) && r is Ok
                ==> r->Ok_0.last_captured_at is None,
{
    assert forall|c: &mut ApngCanvas, f: ApngFrame, r: Result<ApngImage, CaptureError>| #[trigger]
        call_ensures(ApngCanvas::next_image, (c, f), r) && r is Ok implies {
        let delay = r->Ok_0.delay_ms as int;
        &&& delay >= 1
        &&& final(c).last_captured_at == Some(f.captured_at)
        &&& c.last_captured_at is None ==> delay == 33
        &&& c.last_captured_at is Some && 0 <= f.captured_at - c.last_captured_at->0
            <= 65_535_000_000 ==> -1_000_000 <= 1_000_000 * delay - (f.captured_at
            - c.last_captured_at->0) <= 1_000_000
        &&& c.last_captured_at is Some && f.captured_at - c.last_captured_at->0 > 65_535_000_000
            ==> delay == 65_535
        &&& c.last_captured_at is Some && 1_000_000 <= f.captured_at - c.last_captured_at->0
            <= 65_535_000_000 ==> 0 <= f.captured_at - c.last_captured_at->0 - 1_000_000 * delay
            < 1_000_000
    } by {
        if c.last_captured_at is Some && f.captured_at >= c.last_captured_at->0 {
            let gap = f.captured_at - c.last_captured_at->0;
            let ms = elapsed_ms(c.last_captured_at->0, f.captured_at);
            assert(ms * 1_000_000 <= gap < (ms + 1) * 1_000_000);
        }
    }
}

/// APNG playback lasts as long as the recording. Where images were made of frames captured
/// at `times`, each on the canvas that the one before it left, and the times do not fall and
/// neighbours lie at most 65535 ms apart, the delays from the second image on add up to the
/// time from the first frame to the last, give or take a millisecond a frame.
pub proof fn apng_playback_matches_recording(
    canvases: Seq<ApngCanvas>,
    times: Seq<u64>,
    delays: Seq<u16>,
)
    requires
        times.len() > 0,
        delays.len() == times.len(),
        canvases.len() == times.len() + 1,
        forall|i: int|
            #![trigger times[i]]
            0 <= i < times.len() ==> exists|
                c: &mut ApngCanvas,
                f: ApngFrame,
                r: Result<ApngImage, CaptureError>,
            | #[trigger]
                call_ensures(ApngCanvas::next_image, (c, f), r) && *c == canvases[i] && *final(c)
                    == canvases[i + 1] && r is Ok && f.captured_at == times[i]
                    && r->Ok_0.delay_ms == delays[i],
        forall|i: int, j: int|
            #![trigger times[i], times[j]]
            0 <= i && j == i + 1 && j < times.len() ==> 0 <= times[j] - times[i] <= 65_535_000_000,
    ensures
        1_000_000 * total(delays.skip(1)) - (times.last() - times[0]) <= 1_000_000 * (times.len()
            - 1),
        times.last() - times[0] - 1_000_000 * total(delays.skip(1)) <= 1_000_000 * (times.len()
            - 1),
{
    apng_delays_follow_the_frames();
    assert forall|i: int, j: int|
        #![trigger times[i], delays[j]]
        0 <= i && j == i + 1 && j < times.len() implies -1_000_000 <= 1_000_000 * delays[j] - (
    times[j] - times[i]) <= 1_000_000 by {
        assert(canvases[j].last_captured_at == Some(times[i]));
        assert(0 <= times[j] - times[i] <= 65_535_000_000);
    }
    delays_add_up(times, delays, 1_000_000, 1_000_000);
}

/// A GIF frame plays until the next one: its delay is the time since the frame before it, to
/// the hundredth of a second that the file counts in, and its own time is what the delay
/// after it goes by. The first frame gets the delay that its session gives it, and it alone
/// opens the file.
pub proof fn gif_delays_follow_the_frames()
    ensures
        forall|s: &mut GifStream, f: GifFrame, r: Result<EncodedGif, CaptureError>| #[trigger]
            call_ensures(GifStream::encode_one_frame, (s, f), r) && r is Ok ==> {
                let delay = r->Ok_0.delay_cs as int;
                &&& final(s).last_captured_at == Some(f.captured_at)
                &&& final(s).opened
                &&& r->Ok_0.open is Some <==> !s.opened
                &&& s.last_captured_at is None ==> delay == f.default_delay_cs
                &&& s.last_captured_at is Some ==> delay >= 1
                &&& s.last_captured_at is Some && 0 <= f.captured_at - s.last_captured_at->0
                    <= 655_350_000_000 ==> -10_000_000 <= 10_000_000 * delay - (f.captured_at
                    - s.last_captured_at->0) <= 10_000_000
                &&& s.last_captured_at is Some && f.captured_at - s.last_captured_at->0
                    >= 655_350_000_000 ==> delay == 65_535
                &&& s.last_captured_at is Some && 5_000_000 <= f.captured_at
                    - s.last_captured_at->0 <= 655_350_000_000 ==> -5_000_000 <= 10_000_000 * delay
                    - (f.captured_at - s.last_captured_at->0) <= 5_000_000
            },
        forall|s: &mut GifStream, f: GifFrame, r: Result<EncodedGif, CaptureError>| #[trigger]
            call_ensures(GifStream::encode_one_frame, (s, f), r) && r is Err ==> *final(s) == *s,
{
    assert forall|s: &mut GifStream, f: GifFrame, r: Result<EncodedGif, CaptureError>| #[trigger]
        call_ensures(GifStream::encode_one_frame, (s, f), r) && r is Ok implies {
        let delay = r->Ok_0.delay_cs as int;
        &&& final(s).last_captured_at == Some(f.captured_at)
        &&& final(s).opened
        &&& r->Ok_0.open is Some <==> !s.opened
        &&& s.last_captured_at is None ==> delay == f.default_delay_cs
        &&& s.last_captured_at is Some ==> delay >= 1
        &&& s.last_captured_at is Some && 0 <= f.captured_at - s.last_captured_at->0
            <= 655_350_000_000 ==> -10_000_000 <= 10_000_000 * delay - (f.captured_at
            - s.last_captured_at->0) <= 10_000_000
        &&& s.last_captured_at is Some && f.captured_at - s.last_captured_at->0 >= 655_350_000_000
            ==> delay == 65_535
        &&& s.last_captured_at is Some && 5_000_000 <= f.captured_at - s.last_captured_at->0
            <= 655_350_000_000 ==> -5_000_000 <= 10_000_000 * delay - (f.captured_at
            - s.last_captured_at->0) <= 5_000_000
    } by {
        if s.last_captured_at is Some && f.captured_at >= s.last_captured_at->0 {
            let gap = f.captured_at - s.last_captured_at->0;
            let ms = elapsed_ms(s.last_captured_at->0, f.captured_at);
            assert(ms * 1_000_000 <= gap < (ms + 1) * 1_000_000);
            let cs = ((ms + 5) / 10) as nat;
            assert(10 * cs <= ms + 5);
            assert(ms + 5 <= 10 * cs + 9);
        }
    }
}

/// GIF playback lasts as long as the recording, give or take a hundredth of a second a frame:
/// the delays of the frames that a stream encodes, one after the other, add up to the time
/// from the first to the last.
pub proof fn gif_playback_matches_recording(
    streams: Seq<GifStream>,
    times: Seq<u64>,
    delays: Seq<u16>,
)
    requires
        times.len() > 0,
        delays.len() == times.len(),
        streams.len() == times.len() + 1,
        forall|i: int|
            #![trigger times[i]]
            0 <= i < times.len() ==> exists|
                s: &mut GifStream,
                f: GifFrame,
                r: Result<EncodedGif, CaptureError>,
            | #[trigger]
                call_ensures(GifStream::encode_one_frame, (s, f), r) && *s == streams[i]
                    && *final(s) == streams[i + 1] && r is Ok && f.captured_at == times[i]
                    && r->Ok_0.delay_cs == delays[i],
        forall|i: int, j: int|
            #![trigger times[i], times[j]]
            0 <= i && j == i + 1 && j < times.len() ==> 0 <= times[j] - times[i]
                <= 655_350_000_000,
    ensures
        10_000_000 * total(delays.skip(1)) - (times.last() - times[0]) <= 10_000_000 * (times.len()
            - 1),
        times.last() - times[0] - 10_000_000 * total(delays.skip(1)) <= 10_000_000 * (times.len()
            - 1),
{
    gif_delays_follow_the_frames();
    assert forall|i: int, j: int|
        #![trigger times[i], delays[j]]
        0 <= i && j == i + 1 && j < times.len() implies -10_000_000 <= 10_000_000 * delays[j] - (
    times[j] - times[i]) <= 10_000_000 by {
        assert(streams[j].last_captured_at == Some(times[i]));
        assert(0 <= times[j] - times[i] <= 655_350_000_000);
    }
    delays_add_up(times, delays, 10_000_000, 10_000_000);
}

/// Every image of an APNG file has the size of its canvas, which is that of the first frame,
/// scaled where it asks for it. A frame without a scale goes in as it was captured.
pub proof fn apng_images_fit_their_canvas()
    ensures
        forall|first: &ApngFrame, r: Result<ApngCanvas, CaptureError>| #[trigger]
            call_ensures(ApngCanvas::open, (first,), r) ==> {
                &&& first.scale is None ==> r is Ok && r->Ok_0.width == first.src_width
                    && r->Ok_0.height == first.src_height
                &&& first.scale is Some && r is Ok ==> r->Ok_0.width == first.scale->0
                    && r->Ok_0.height >= 1
                &&& first.scale is Some ==> (r is Err <==> first.scale->0 == 0 || first.src_width
                    == 0 || first.src_height == 0)
            },
        forall|c: &mut ApngCanvas, f: ApngFrame, r: Result<ApngImage, CaptureError>| #[trigger]
            call_ensures(ApngCanvas::next_image, (c, f), r) ==> {
                &&& final(c).width == c.width && final(c).height == c.height
                &&& r is Err ==> *final(c) == *c
                &&& f.scale is None ==> (r is Ok <==> f.src_width == c.width && f.src_height
                    == c.height)
                &&& f.scale is None && r is Ok ==> r->Ok_0.rgba@ == f.rgba@
                &&& f.scale is Some && r is Ok ==> f.scale->0 == c.width && r->Ok_0.rgba@.len()
                    == c.width * c.height * 4
            },
{
}

/// A GIF file has the size of its first frame, and each frame has its own, scaled where it asks
/// for it; a frame is refused only for a size that the file cannot hold, or that cannot be
/// scaled.
pub proof fn gif_frames_keep_their_size()
    ensures
        forall|s: &mut GifStream, f: GifFrame, r: Result<EncodedGif, CaptureError>| #[trigger]
            call_ensures(GifStream::encode_one_frame, (s, f), r) ==> {
                &&& f.scale is None ==> (r is Ok <==> f.src_width <= 65535 && f.src_height <= 65535)
                &&& f.scale is Some && (f.scale->0 == 0 || f.scale->0 > 65535 || f.src_width == 0
                    || f.src_height == 0) ==> r is Err
                &&& r is Ok && r->Ok_0.open is Some && f.scale is None
                    ==> r->Ok_0.open->0.width == f.src_width && r->Ok_0.open->0.height
                    == f.src_height
                &&& r is Ok && r->Ok_0.open is Some && f.scale is Some
                    ==> r->Ok_0.open->0.width == f.scale->0
                &&& r is Ok && r->Ok_0.frame is Ok && r->Ok_0.open is Some
                    ==> r->Ok_0.frame->Ok_0.width == r->Ok_0.open->0.width
                    && r->Ok_0.frame->Ok_0.height == r->Ok_0.open->0.height
                &&& r is Ok && f.scale is None ==> r->Ok_0.frame is Ok
                    && r->Ok_0.frame->Ok_0.width == f.src_width && r->Ok_0.frame->Ok_0.height
                    == f.src_height
                &&& r is Ok && f.global_palette is Some && r->Ok_0.frame is Ok
                    ==> r->Ok_0.frame->Ok_0.palette is None
            },
{
}

/// A frame goes against the stream's palette where there is one, with hard alpha, and else gets
/// one of its own.
pub proof fn frames_go_against_their_palette()
    ensures
        forall|w: u16, h: u16, buf: Vec<u8>, global: &Option<Arc<GlobalPalette>>, r: IndexedFrame|
            #[trigger]
            call_ensures(palette_frame, (w, h, buf, global), r) ==> {
                &&& r.width == w && r.height == h
                &&& *global is Some ==> r.palette is None && r.transparent is None && r.indices@
                    == palette::indexed(*((*global)->0), pixels::with_hard_alpha(buf@))
                &&& *global is None ==> r.content() == palette::gif_quantized(
                    w,
                    h,
                    buf@,
                    SAMPLE_FACTOR as int,
                )
            },
{
}

/// A frame that is not scaled is shown as it is: each of its pixels by the entry of the stream's
/// palette that is nearest to it, with alpha on or off; or, in a stream without a palette, by
/// what quantizing the frame itself gives.
pub proof fn unscaled_frames_are_shown_as_they_are()
    ensures
        forall|s: &mut GifStream, f: GifFrame, r: Result<EncodedGif, CaptureError>| #[trigger]
            call_ensures(GifStream::encode_one_frame, (s, f), r) && r is Ok && f.scale is None ==> {
                let e = r->Ok_0.frame;
                &&& e is Ok
                &&& f.global_palette is Some ==> {
                    &&& e->Ok_0.palette is None
                    &&& e->Ok_0.indices@.len() == f.rgba@.len() / 4
                    &&& forall|k: int|
                        0 <= k < f.rgba@.len() / 4 ==> #[trigger] e->Ok_0.indices@[k]
                            == f.global_palette->0.entry(
                            seq![
                                f.rgba@[4 * k],
                                f.rgba@[4 * k + 1],
                                f.rgba@[4 * k + 2],
                                if f.rgba@[4 * k + 3] == 0 {
                                    0u8
                                } else {
                                    255u8
                                },
                            ],
                        ) as u8
                }
                &&& f.global_palette is None ==> e->Ok_0.content() == palette::gif_quantized(
                    f.src_width as u16,
                    f.src_height as u16,
                    f.rgba@,
                    10,
                )
            },
{
    assert forall|s: &mut GifStream, f: GifFrame, r: Result<EncodedGif, CaptureError>, k: int|
        #![trigger call_ensures(GifStream::encode_one_frame, (s, f), r), r->Ok_0.frame->Ok_0.indices@[k]]
        call_ensures(GifStream::encode_one_frame, (s, f), r) && r is Ok && f.scale is None
            && f.global_palette is Some && 0 <= k < f.rgba@.len()
            / 4 implies r->Ok_0.frame->Ok_0.indices@[k] == f.global_palette->0.entry(
        seq![
            f.rgba@[4 * k],
            f.rgba@[4 * k + 1],
            f.rgba@[4 * k + 2],
            if f.rgba@[4 * k + 3] == 0 {
                0u8
            } else {
                255u8
            },
        ],
    ) as u8 by {
        let hard = pixels::with_hard_alpha(f.rgba@);
        assert(hard.subrange(4 * k, 4 * k + 4) =~= seq![
            f.rgba@[4 * k],
            f.rgba@[4 * k + 1],
            f.rgba@[4 * k + 2],
            if f.rgba@[4 * k + 3] == 0 {
                0u8
            } else {
                255u8
            },
        ]);
    }
}

} // verus!
