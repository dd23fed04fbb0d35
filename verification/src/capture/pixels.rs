//! Pixel buffers: output sizes, row unpacking, channel order and alpha.

use vstd::arithmetic::div_mod;
use vstd::prelude::*;

use crate::text;
use crate::text::number;

verus! {

/// Why a capture could not go on, as it is shown to the user.
#[derive(Debug)]
pub struct CaptureError {
    pub message: String,
}

/// The message of an error.
pub open spec fn failure<T>(r: Result<T, CaptureError>) -> Option<Seq<char>> {
    match r {
        Ok(_) => None,
        Err(e) => Some(e.message@),
    }
}

/// `{w}x{h}`.
pub open spec fn dims_text(w: nat, h: nat) -> Seq<char> {
    text::decimal(w) + "x"@ + text::decimal(h)
}

pub fn dims_string(w: u32, h: u32) -> (r: String)
    ensures
        r@ == dims_text(w as nat, h as nat),
{
    let mut s = number(w as u64);
    s.append("x");
    s.append(number(h as u64).as_str());
    s
}

// ---------------------------------------------------------------------------
// Output size
// ---------------------------------------------------------------------------

/// `target * height / width` rounded to the nearest integer, halves up.
pub open spec fn nearest_height(width: nat, height: nat, target: nat) -> nat {
    ((target * height + width / 2) / width) as nat
}

/// A target width or a source size of zero cannot be scaled.
pub open spec fn scalable(width: u32, height: u32, scale: Option<u32>) -> bool {
    match scale {
        None => true,
        Some(t) => t != 0 && width != 0 && height != 0,
    }
}

/// The output size: the source size without a target width; else the target width and the
/// height that keeps the aspect ratio, at least 1. A height is kept modulo 2^32.
pub open spec fn output_size(width: u32, height: u32, scale: Option<u32>) -> (u32, u32) {
    match scale {
        None => (width, height),
        Some(t) => {
            let h = nearest_height(width as nat, height as nat, t as nat) % 0x1_0000_0000;
            (
                t,
                if h == 0 {
                    1
                } else {
                    h as u32
                },
            )
        },
    }
}

/// Shown for a size that cannot be scaled.
pub open spec fn bad_scale(width: u32, height: u32, target: u32) -> Seq<char> {
    "invalid scale: target_w="@ + text::decimal(target as nat) + ", src="@ + dims_text(
        width as nat,
        height as nat,
    )
}

/// Compute the output dimensions for a captured frame given an optional target width.
pub fn scaled_dims(width: u32, height: u32, scale: Option<u32>) -> (r: Result<
    (u32, u32),
    CaptureError,
>)
    ensures
        match r {
            Ok(d) => scalable(width, height, scale) && d == output_size(width, height, scale),
            Err(e) => !scalable(width, height, scale) && e.message@ == bad_scale(
                width,
                height,
                scale->0,
            ),
        },
{
    let target = match scale {
        Some(t) => t,
        None => {
            return Ok((width, height));
        },
    };
    if target == 0 || width == 0 || height == 0 {
        let mut s = "invalid scale: target_w=".to_owned();
        s.append(number(target as u64).as_str());
        s.append(", src=");
        s.append(dims_string(width, height).as_str());
        return Err(CaptureError { message: s });
    }
    assert(target as int * height as int <= 0xffff_ffff * 0xffff_ffff) by (nonlinear_arith)
        requires
            target <= 0xffff_ffff,
            height <= 0xffff_ffff,
    ;
    let q: u64 = (target as u64 * height as u64 + (width as u64) / 2) / width as u64;
    let h: u32 = (q % 0x1_0000_0000) as u32;
    Ok(
        (
            target,
            if h == 0 {
                1
            } else {
                h
            },
        ),
    )
}

/// Scaling keeps the aspect ratio: the height differs from the exact one by half a pixel at
/// most, wherever the exact height is at least one pixel and fits the type.
pub proof fn scaling_keeps_aspect(width: u32, height: u32, target: u32)
    requires
        scalable(width, height, Some(target)),
        width <= target * height,
        nearest_height(width as nat, height as nat, target as nat) <= u32::MAX,
    ensures
        output_size(width, height, Some(target)).0 == target,
        2 * (output_size(width, height, Some(target)).1 * width - target * height) <= width,
        2 * (target * height - output_size(width, height, Some(target)).1 * width) <= width,
{
    let w = width as int;
    let e = target as int * height as int;
    assert(0 <= e) by (nonlinear_arith)
        requires
            e == target as int * height as int,
            target >= 0,
            height >= 0,
    ;
    let n = e + w / 2;
    let q = n / w;
    div_mod::lemma_fundamental_div_mod(n, w);
    let r = n % w;
    assert(0 <= r < w) by {
        div_mod::lemma_mod_bound(n, w);
    }
    assert(n == w * q + r);
    assert(q >= 1) by (nonlinear_arith)
        requires
            n == w * q + r,
            r < w,
            n >= w,
            w > 0,
    ;
    assert(q % 0x1_0000_0000 == q);
    assert(output_size(width, height, Some(target)).1 == q);
    assert(q * w == w * q) by (nonlinear_arith);
}

/// A scaled frame is never empty.
pub proof fn scaled_size_is_positive(width: u32, height: u32, target: u32)
    requires
        scalable(width, height, Some(target)),
    ensures
        output_size(width, height, Some(target)).0 >= 1,
        output_size(width, height, Some(target)).1 >= 1,
{
}

// ---------------------------------------------------------------------------
// Rates
// ---------------------------------------------------------------------------

/// The GIF delay for a frame rate: `100 / fps` hundredths of a second, rounded to nearest,
/// at least 1. A rate of 0 counts as 1.
pub open spec fn delay_of_fps(fps: nat) -> nat {
    let f: nat = if fps == 0 {
        1
    } else {
        fps
    };
    let cs = (200 + f) / (2 * f);
    if cs == 0 {
        1
    } else {
        cs as nat
    }
}

pub fn fps_to_centiseconds(fps: u16) -> (r: u16)
    ensures
        r == delay_of_fps(fps as nat),
{
    let f: u32 = if fps == 0 {
        1
    } else {
        fps as u32
    };
    let cs: u32 = (200 + f) / (2 * f);
    assert(cs <= 200 + f) by {
        div_mod::lemma_div_is_ordered_by_denominator((200 + f) as int, 1, (2 * f) as int);
    }
    assert(cs <= 101) by (nonlinear_arith)
        requires
            cs == (200 + f) / (2 * f),
            f >= 1,
    ;
    if cs == 0 {
        1
    } else {
        cs as u16
    }
}

/// The time between captured frames, in nanoseconds: `1 / fps` seconds to the nearest
/// nanosecond, a rate of 0 counting as 1. At 1024 frames per second the time falls midway
/// between two nanoseconds, and the even one is taken.
pub open spec fn interval_of_fps(fps: nat) -> nat {
    let f: nat = if fps == 0 {
        1
    } else {
        fps
    };
    if f == 1024 {
        976_562
    } else {
        ((2_000_000_000 + f) / (2 * f)) as nat
    }
}

pub fn fps_to_interval(fps: u16) -> (r: u64)
    ensures
        r == interval_of_fps(fps as nat),
{
    let f: u64 = if fps == 0 {
        1
    } else {
        fps as u64
    };
    if f == 1024 {
        976_562
    } else {
        (2_000_000_000 + f) / (2 * f)
    }
}

// ---------------------------------------------------------------------------
// Alpha
// ---------------------------------------------------------------------------

/// Opaque or clear: any alpha but 0 becomes 255.
pub open spec fn hard_alpha(a: u8) -> u8 {
    if a != 0 {
        0xff
    } else {
        0
    }
}

/// The buffer with the alpha of every whole pixel made opaque or clear.
pub open spec fn with_hard_alpha(rgba: Seq<u8>) -> Seq<u8> {
    Seq::new(
        rgba.len(),
        |i: int|
            if i % 4 == 3 {
                hard_alpha(rgba[i])
            } else {
                rgba[i]
            },
    )
}

pub fn harden_alpha(rgba: &mut Vec<u8>)
    ensures
        final(rgba)@ == with_hard_alpha(old(rgba)@),
{
    let n: usize = rgba.len();
    let ghost before = rgba@;
    let mut i: usize = 0;
    while i < n
        invariant
            i <= n,
            n == rgba@.len(),
            before.len() == n,
            forall|j: int| 0 <= j < i ==> rgba@[j] == with_hard_alpha(before)[j],
            forall|j: int| i <= j < n ==> rgba@[j] == before[j],
        decreases n - i,
    {
        if i % 4 == 3 && rgba[i] != 0 {
            rgba.set(i, 0xff);
        }
        i += 1;
    }
    assert(rgba@ =~= with_hard_alpha(before));
}

// ---------------------------------------------------------------------------
// Sampling
// ---------------------------------------------------------------------------

/// Every sixteenth pixel of a buffer is sampled, the first included.
pub open spec fn sample_count(rgba: Seq<u8>) -> nat {
    ((rgba.len() / 4 + 15) / 16) as nat
}

/// The sampled pixels of a buffer, with hard alpha.
pub open spec fn samples_of(rgba: Seq<u8>) -> Seq<u8> {
    Seq::new(
        4 * sample_count(rgba),
        |k: int|
            if k % 4 == 3 {
                hard_alpha(rgba[(k / 4) * 64 + 3])
            } else {
                rgba[(k / 4) * 64 + k % 4]
            },
    )
}

/// Append the sampled pixels of a buffer.
pub fn push_samples(out: &mut Vec<u8>, rgba: &Vec<u8>)
    ensures
        final(out)@ == old(out)@ + samples_of(rgba@),
{
    let n: usize = rgba.len() / 4;
    let ghost before = out@;
    let ghost all = samples_of(rgba@);
    let mut p: usize = 0;
    let ghost mut count: int = 0;
    assert(before + all.take(0) =~= before);
    while p < n
        invariant
            n == rgba@.len() / 4,
            rgba@.len() <= usize::MAX,
            before == old(out)@,
            p == 16 * count,
            0 <= count <= sample_count(rgba@),
            all == samples_of(rgba@),
            out@ == before + all.take(4 * count),
        decreases n - p,
    {
        let at: usize = 4 * p;
        out.push(rgba[at]);
        out.push(rgba[at + 1]);
        out.push(rgba[at + 2]);
        out.push(
            if rgba[at + 3] != 0 {
                0xff
            } else {
                0
            },
        );
        proof {
            let k = 4 * count;
            assert(count < sample_count(rgba@));
            assert(all[k] == rgba@[at as int]);
            assert(all[k + 1] == rgba@[at + 1]);
            assert(all[k + 2] == rgba@[at + 2]);
            assert(all[k + 3] == hard_alpha(rgba@[at + 3]));
            assert(all.take(k + 4) =~= all.take(k).push(all[k]).push(all[k + 1]).push(
                all[k + 2],
            ).push(all[k + 3]));
            assert(out@ =~= before + all.take(k + 4));
            count = count + 1;
        }
        if n - p <= 16 {
            assert(count == sample_count(rgba@));
            assert(all.take(4 * count) =~= all);
            return;
        }
        p += 16;
    }
    assert(count == sample_count(rgba@));
    assert(all.take(4 * count) =~= all);
}

// ---------------------------------------------------------------------------
// Readback
// ---------------------------------------------------------------------------

/// How a texture lies in a readback buffer: rows of `width * 4` bytes, each padded to a
/// multiple of 256.
#[derive(Clone, Copy, Debug, PartialEq, Eq, Structural)]
pub struct RowLayout {
    pub unpadded_bpr: u32,
    pub padded_bpr: u32,
    pub buffer_size: u64,
}

/// The least multiple of 256 that is not below `n`.
pub open spec fn row_stride(n: nat) -> nat {
    ((n + 255) / 256 * 256) as nat
}

/// The layout of a texture's readback buffer.
pub fn row_layout(width: u32, height: u32) -> (r: Result<RowLayout, CaptureError>)
    requires
        width * 4 <= u32::MAX ==> row_stride((width * 4) as nat) <= u32::MAX,
    ensures
        match r {
            Ok(l) => width * 4 <= u32::MAX && l.unpadded_bpr == width * 4 && l.padded_bpr
                == row_stride((width * 4) as nat) && l.buffer_size == l.padded_bpr * height,
            Err(e) => width * 4 > u32::MAX && e.message@ == "width * 4 overflows u32"@,
        },
{
    if width > u32::MAX / 4 {
        return Err(CaptureError { message: "width * 4 overflows u32".to_owned() });
    }
    let unpadded: u32 = width * 4;
    let padded: u64 = (unpadded as u64 + 255) / 256 * 256;
    assert(padded * height <= 0xffff_ffff * 0xffff_ffff) by (nonlinear_arith)
        requires
            padded <= 0xffff_ffff,
            height <= 0xffff_ffff,
    ;
    Ok(
        RowLayout {
            unpadded_bpr: unpadded,
            padded_bpr: padded as u32,
            buffer_size: padded * height as u64,
        },
    )
}

/// Raw RGBA8 pixels in row-major order.
pub struct RawImage {
    pub width: u32,
    pub height: u32,
    pub rgba: Vec<u8>,
}

/// Which channel of the source pixel stands in channel `c` of the output: with BGRA sources
/// red and blue change places.
pub open spec fn source_channel(c: int, bgra: bool) -> int {
    if bgra && c == 0 {
        2
    } else if bgra && c == 2 {
        0
    } else {
        c
    }
}

/// The tightly packed pixels of a padded readback buffer.
pub open spec fn unpacked(data: Seq<u8>, width: nat, height: nat, stride: nat, bgra: bool) -> Seq<
    u8,
> {
    let row = width * 4;
    Seq::new(
        row * height,
        |i: int|
            data[(i / row as int) * stride + (i % row as int) / 4 * 4 + source_channel(
                (i % row as int) % 4,
                bgra,
            )],
    )
}

proof fn unpacked_at(
    data: Seq<u8>,
    width: nat,
    height: nat,
    stride: nat,
    bgra: bool,
    y: int,
    x: int,
    c: int,
)
    requires
        0 <= y < height,
        0 <= x < width,
        0 <= c < 4,
    ensures
        0 <= y * (width * 4) + x * 4 + c < width * 4 * height,
        unpacked(data, width, height, stride, bgra)[y * (width * 4) + x * 4 + c] == data[y * stride
            + x * 4 + source_channel(c, bgra)],
{
    let row = (width * 4) as int;
    let i = y * row + x * 4 + c;
    assert(0 <= y * row) by (nonlinear_arith)
        requires
            y >= 0,
            row >= 0,
    ;
    assert((y + 1) * row <= height * row) by (nonlinear_arith)
        requires
            y + 1 <= height,
            row >= 0,
    ;
    assert((y + 1) * row == y * row + row) by (nonlinear_arith);
    assert(height * row == width * 4 * height) by (nonlinear_arith)
        requires
            row == width * 4,
    ;
    let r = x * 4 + c;
    assert(0 <= r < row);
    assert(i == row * y + r) by (nonlinear_arith)
        requires
            i == y * row + r,
    ;
    div_mod::lemma_fundamental_div_mod_converse(i, row, y, r);
}

/// Copy the rows out of a readback buffer, dropping the padding and bringing BGRA sources
/// into RGBA order.
pub fn unpack_rows(data: &[u8], width: u32, height: u32, layout: RowLayout, bgra: bool) -> (r:
    RawImage)
    requires
        layout.unpadded_bpr == width * 4,
        layout.unpadded_bpr <= layout.padded_bpr,
        layout.padded_bpr * height <= data@.len(),
    ensures
        r.width == width,
        r.height == height,
        r.rgba@ == unpacked(
            data@,
            width as nat,
            height as nat,
            layout.padded_bpr as nat,
            bgra,
        ),
{
    let ghost whole = unpacked(
        data@,
        width as nat,
        height as nat,
        layout.padded_bpr as nat,
        bgra,
    );
    let ghost row = (width * 4) as int;
    let mut rgba: Vec<u8> = Vec::new();
    let mut y: u32 = 0;
    let mut start: usize = 0;
    assert(data@.len() <= usize::MAX) by {
        assert(data.len() == data@.len());
    }
    assert(whole.len() == height * row) by (nonlinear_arith)
        requires
            whole.len() == width * 4 * height,
            row == width * 4,
    ;
    assert(rgba@ =~= whole.take(0 * row));
    while y < height
        invariant
            y <= height,
            row == width * 4,
            layout.unpadded_bpr == width * 4,
            layout.unpadded_bpr <= layout.padded_bpr,
            layout.padded_bpr * height <= data@.len(),
            y < height ==> start == y * layout.padded_bpr,
            data@.len() <= usize::MAX,
            whole == unpacked(
                data@,
                width as nat,
                height as nat,
                layout.padded_bpr as nat,
                bgra,
            ),
            whole.len() == height * row,
            rgba@ == whole.take(y * row),
        decreases height - y,
    {
        let ghost yy = y as int;
        let ghost stride = layout.padded_bpr as int;
        assert((yy + 1) * stride <= height * stride) by (nonlinear_arith)
            requires
                yy + 1 <= height,
                stride >= 0,
        ;
        assert((yy + 1) * stride == yy * stride + stride) by (nonlinear_arith);
        assert(height * stride == stride * height) by (nonlinear_arith);
        assert((yy + 1) * row <= height * row) by (nonlinear_arith)
            requires
                yy + 1 <= height,
                row >= 0,
        ;
        assert((yy + 1) * row == yy * row + row) by (nonlinear_arith);
        assert(0 <= yy * row) by (nonlinear_arith)
            requires
                yy >= 0,
                row >= 0,
        ;
        let mut x: u32 = 0;
        let mut at: usize = start;
        while x < width
            invariant
                x <= width,
                y < height,
                yy == y,
                stride == layout.padded_bpr,
                row == width * 4,
                layout.unpadded_bpr == width * 4,
                layout.unpadded_bpr <= layout.padded_bpr,
                start == yy * stride,
                start + stride <= data@.len(),
                x < width ==> at == start + x * 4,
                data@.len() <= usize::MAX,
                whole == unpacked(
                    data@,
                    width as nat,
                    height as nat,
                    layout.padded_bpr as nat,
                    bgra,
                ),
                0 <= yy * row,
                yy * row + row <= whole.len(),
                rgba@ == whole.take(yy * row + x * 4),
            decreases width - x,
        {
            proof {
                let w = width as nat;
                let h = height as nat;
                let s = layout.padded_bpr as nat;
                unpacked_at(data@, w, h, s, bgra, yy, x as int, 0);
                unpacked_at(data@, w, h, s, bgra, yy, x as int, 1);
                unpacked_at(data@, w, h, s, bgra, yy, x as int, 2);
                unpacked_at(data@, w, h, s, bgra, yy, x as int, 3);
            }
            let ghost k = yy * row + x * 4;
            if bgra {
                rgba.push(data[at + 2]);
                rgba.push(data[at + 1]);
                rgba.push(data[at]);
            } else {
                rgba.push(data[at]);
                rgba.push(data[at + 1]);
                rgba.push(data[at + 2]);
            }
            rgba.push(data[at + 3]);
            assert(rgba@ =~= whole.take(k + 4));
            x += 1;
            if x < width {
                at += 4;
            }
        }
        y += 1;
        if y < height {
            assert((yy + 2) * stride <= height * stride) by (nonlinear_arith)
                requires
                    yy + 2 <= height,
                    stride >= 0,
            ;
            assert((yy + 2) * stride == yy * stride + stride + stride) by (nonlinear_arith);
            start += layout.padded_bpr as usize;
        }
    }
    assert(whole.take(height * row) =~= whole);
    RawImage { width, height, rgba }
}

// ---------------------------------------------------------------------------
// Laws
// ---------------------------------------------------------------------------

/// Scaling asks for a width; the height follows so that the picture keeps its shape, to the
/// nearest pixel. Without a scale the size stays, and there is no scaling of or to nothing.
pub proof fn scaled_pictures_keep_their_shape()
    ensures
        forall|width: u32, height: u32, scale: Option<u32>, r: Result<(u32, u32), CaptureError>|
            #[trigger]
            call_ensures(scaled_dims, (width, height, scale), r) ==> {
                &&& scale is None ==> r == Ok::<(u32, u32), CaptureError>((width, height))
                &&& scale is Some ==> (r is Err <==> scale->0 == 0 || width == 0 || height == 0)
                &&& scale is Some && r is Ok ==> r->Ok_0.0 == scale->0 && r->Ok_0.1 >= 1
                &&& scale is Some && r is Ok && width <= scale->0 * height && scale->0 * height
                    + width < width * 0xffff_ffff ==> 2 * (r->Ok_0.1 * width - scale->0 * height)
                    <= width && 2 * (scale->0 * height - r->Ok_0.1 * width) <= width
            },
{
    assert forall|width: u32, height: u32, scale: Option<u32>, r: Result<(u32, u32), CaptureError>|
        #[trigger]
        call_ensures(scaled_dims, (width, height, scale), r) implies {
        &&& scale is None ==> r == Ok::<(u32, u32), CaptureError>((width, height))
        &&& scale is Some ==> (r is Err <==> scale->0 == 0 || width == 0 || height == 0)
        &&& scale is Some && r is Ok ==> r->Ok_0.0 == scale->0 && r->Ok_0.1 >= 1
        &&& scale is Some && r is Ok && width <= scale->0 * height && scale->0 * height + width
            < width * 0xffff_ffff ==> 2 * (r->Ok_0.1 * width - scale->0 * height) <= width && 2 * (
        scale->0 * height - r->Ok_0.1 * width) <= width
    } by {
        if scale is Some && r is Ok && width <= scale->0 * height && scale->0 * height + width
            < width * 0xffff_ffff {
            let w = width as int;
            let e = scale->0 * height;
            let q = (e + w / 2) / w;
            div_mod::lemma_fundamental_div_mod(e + w / 2, w);
            div_mod::lemma_mod_bound(e + w / 2, w);
            assert(q < 0xffff_ffff) by (nonlinear_arith)
                requires
                    w * q <= e + w,
                    e + w < w * 0xffff_ffff,
                    w > 0,
            ;
            scaling_keeps_aspect(width, height, scale->0);
        }
    }
}

/// Hard alpha leaves the colors alone, makes what shows at all opaque, and leaves what does
/// not show unseen.
pub proof fn hard_alpha_keeps_colors()
    ensures
        forall|rgba: &mut Vec<u8>, u: ()| #[trigger]
            call_ensures(harden_alpha, (rgba,), u) ==> {
                let a = (*rgba)@;
                let b = (*final(rgba))@;
                &&& b.len() == a.len()
                &&& forall|i: int|
                    0 <= i < a.len() ==> {
                        &&& i % 4 != 3 ==> #[trigger] b[i] == a[i]
                        &&& i % 4 == 3 && a[i] == 0 ==> b[i] == 0
                        &&& i % 4 == 3 && a[i] != 0 ==> b[i] == 255
                    }
            },
{
}

/// Sampling takes every sixteenth pixel, from the first on and while there are any, with its
/// colors, behind what was sampled before.
pub proof fn every_sixteenth_pixel_is_sampled()
    ensures
        forall|out: &mut Vec<u8>, rgba: &Vec<u8>, u: ()| #[trigger]
            call_ensures(push_samples, (out, rgba), u) ==> {
                let a = (*out)@;
                let b = (*final(out))@;
                let pixels = rgba@.len() / 4;
                &&& a.is_prefix_of(b)
                &&& (b.len() - a.len()) % 4 == 0
                &&& 16 * ((b.len() - a.len()) / 4) >= pixels
                &&& 16 * ((b.len() - a.len()) / 4) < pixels + 16
                &&& forall|k: int, c: int|
                    #![trigger b[a.len() + 4 * k + c]]
                    0 <= k && 0 <= c < 3 && a.len() + 4 * k + c < b.len() ==> b[a.len() + 4 * k + c]
                        == rgba@[64 * k + c]
            },
{
    assert forall|out: &mut Vec<u8>, rgba: &Vec<u8>, u: ()| #[trigger]
        call_ensures(push_samples, (out, rgba), u) implies {
        let a = (*out)@;
        let b = (*final(out))@;
        let pixels = rgba@.len() / 4;
        &&& a.is_prefix_of(b)
        &&& (b.len() - a.len()) % 4 == 0
        &&& 16 * ((b.len() - a.len()) / 4) >= pixels
        &&& 16 * ((b.len() - a.len()) / 4) < pixels + 16
        &&& forall|k: int, c: int|
            #![trigger b[a.len() + 4 * k + c]]
            0 <= k && 0 <= c < 3 && a.len() + 4 * k + c < b.len() ==> b[a.len() + 4 * k + c]
                == rgba@[64 * k + c]
    } by {
        let a = (*out)@;
        let b = (*final(out))@;
        let more = samples_of(rgba@);
        assert(a =~= b.subrange(0, a.len() as int));
        assert(b.len() - a.len() == 4 * sample_count(rgba@));
        assert forall|k: int, c: int|
            #![trigger b[a.len() + 4 * k + c]]
            0 <= k && 0 <= c < 3 && a.len() + 4 * k + c < b.len() implies b[a.len() + 4 * k + c]
            == rgba@[64 * k + c] by {
            let at = 4 * k + c;
            assert(at / 4 == k && at % 4 == c);
            assert(b[a.len() + at] == more[at]);
        }
    }
}

/// Rows of a readback are laid out at the next multiple of 256 bytes, with room for all of
/// them; only a width whose row has no size is refused.
pub proof fn rows_are_laid_out_aligned()
    ensures
        forall|width: u32, height: u32, r: Result<RowLayout, CaptureError>| #[trigger]
            call_ensures(row_layout, (width, height), r) ==> {
                &&& r is Ok <==> width * 4 <= u32::MAX
                &&& r is Ok ==> {
                    let l = r->Ok_0;
                    &&& l.unpadded_bpr == 4 * width
                    &&& l.padded_bpr % 256 == 0
                    &&& l.unpadded_bpr <= l.padded_bpr < l.unpadded_bpr + 256
                    &&& l.buffer_size == l.padded_bpr * height
                }
            },
{
}

/// Reading back keeps the picture: the pixel at a place is the one that the readback holds in
/// that place of that row, with red and blue in their places whatever order they came in.
pub proof fn readback_keeps_the_picture(x: int, y: int)
    ensures
        forall|
            data: &[u8],
            width: u32,
            height: u32,
            layout: RowLayout,
            bgra: bool,
            r: RawImage,
        |
            #[trigger]
            call_ensures(unpack_rows, (data, width, height, layout, bgra), r) ==> {
                let to = y * (width * 4) + x * 4;
                let from = y * layout.padded_bpr + x * 4;
                &&& r.width == width && r.height == height
                &&& r.rgba@.len() == width * 4 * height
                &&& 0 <= x < width && 0 <= y < height ==> {
                    &&& r.rgba@[to + 1] == data@[from + 1]
                    &&& r.rgba@[to + 3] == data@[from + 3]
                    &&& bgra ==> r.rgba@[to] == data@[from + 2] && r.rgba@[to + 2] == data@[from]
                    &&& !bgra ==> r.rgba@[to] == data@[from] && r.rgba@[to + 2] == data@[from + 2]
                }
            },
{
    assert forall|
        data: &[u8],
        width: u32,
        height: u32,
        layout: RowLayout,
        bgra: bool,
        r: RawImage,
    |
        #[trigger]
        call_ensures(unpack_rows, (data, width, height, layout, bgra), r) implies {
        let to = y * (width * 4) + x * 4;
        let from = y * layout.padded_bpr + x * 4;
        &&& r.width == width && r.height == height
        &&& r.rgba@.len() == width * 4 * height
        &&& 0 <= x < width && 0 <= y < height ==> {
            &&& r.rgba@[to + 1] == data@[from + 1]
            &&& r.rgba@[to + 3] == data@[from + 3]
            &&& bgra ==> r.rgba@[to] == data@[from + 2] && r.rgba@[to + 2] == data@[from]
            &&& !bgra ==> r.rgba@[to] == data@[from] && r.rgba@[to + 2] == data@[from + 2]
        }
    } by {
        if 0 <= x < width && 0 <= y < height {
            let stride = layout.padded_bpr as nat;
            unpacked_at(data@, width as nat, height as nat, stride, bgra, y, x, 0);
            unpacked_at(data@, width as nat, height as nat, stride, bgra, y, x, 1);
            unpacked_at(data@, width as nat, height as nat, stride, bgra, y, x, 2);
            unpacked_at(data@, width as nat, height as nat, stride, bgra, y, x, 3);
        }
    }
}

} // verus!
