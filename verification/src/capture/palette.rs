//! Color quantization and resampling, done by outside crates.

use std::sync::Arc;

use vstd::prelude::*;

use crate::capture::pixels;
use crate::capture::pixels::push_samples;

verus! {

#[verifier::external_type_specification]
#[verifier::external_body]
pub struct ExNeuQuant(color_quant::NeuQuant);

/// The color map, three bytes per entry, that `color_quant::NeuQuant` builds from samples.
pub uninterp spec fn neuquant_colors(samplefac: int, colors: nat, samples: Seq<u8>) -> Seq<u8>;

/// The color map entry that `color_quant::NeuQuant`, built from samples, finds for a pixel.
pub uninterp spec fn neuquant_index(samplefac: int, colors: nat, samples: Seq<u8>, pixel: Seq<u8>) -> nat;

/// How many pixels NeuQuant skips while it learns.
pub const SAMPLE_FACTOR: i32 = 10;

/// The size of a palette.
pub const PALETTE_SIZE: usize = 256;

/// A palette trained once and shared by every frame of a stream.
pub struct GlobalPalette {
    quantizer: color_quant::NeuQuant,
    /// What the quantizer was trained on.
    samples: Vec<u8>,
}

impl GlobalPalette {
    /// The pixels that the palette was trained on.
    pub closed spec fn trained_on(&self) -> Seq<u8> {
        self.samples@
    }

    /// The palette's colors.
    pub open spec fn colors(&self) -> Seq<u8> {
        neuquant_colors(SAMPLE_FACTOR as int, PALETTE_SIZE as nat, self.trained_on())
    }

    /// The palette entry for a pixel.
    pub open spec fn entry(&self, pixel: Seq<u8>) -> nat {
        neuquant_index(SAMPLE_FACTOR as int, PALETTE_SIZE as nat, self.trained_on(), pixel)
    }

    /// `color_quant::NeuQuant::new` trains a network of 256 colors with a sample factor of
    /// 10. The network is a function of its arguments; the palette records the samples.
    #[verifier::external_body]
    fn train(samples: Vec<u8>) -> (r: GlobalPalette)
        ensures
            r.trained_on() == samples@,
    {
        let quantizer = color_quant::NeuQuant::new(SAMPLE_FACTOR, PALETTE_SIZE, &samples);
        GlobalPalette { quantizer, samples }
    }

    /// `color_quant::NeuQuant::color_map_rgb` lists the network's colors.
    #[verifier::external_body]
    pub(crate) fn color_map_rgb(&self) -> (r: Vec<u8>)
        ensures
            r@ == neuquant_colors(SAMPLE_FACTOR as int, PALETTE_SIZE as nat, self.trained_on()),
            r@.len() == 3 * PALETTE_SIZE,
    {
        self.quantizer.color_map_rgb()
    }

    /// `color_quant::NeuQuant::index_of` finds the best entry of the color map for an RGBA
    /// pixel. It panics on a slice of another length than 4.
    #[verifier::external_body]
    fn index_of(&self, pixel: &[u8]) -> (r: usize)
        requires
            pixel@.len() == 4,
        ensures
            r == neuquant_index(
                SAMPLE_FACTOR as int,
                PALETTE_SIZE as nat,
                self.trained_on(),
                pixel@,
            ),
            r < PALETTE_SIZE,
    {
        self.quantizer.index_of(pixel)
    }
}

/// `Arc::clone` makes another handle to the same value.
#[verifier::external_body]
pub(crate) fn share(p: &Arc<GlobalPalette>) -> (r: Arc<GlobalPalette>)
    ensures
        r == *p,
{
    Arc::clone(p)
}

/// What `gif::Frame::from_rgba_speed` makes of an RGBA image: the color index of every
/// pixel, the frame's own palette, and the transparent index.
pub uninterp spec fn gif_quantized(
    width: u16,
    height: u16,
    rgba: Seq<u8>,
    speed: int,
) -> (Seq<u8>, Option<Seq<u8>>, Option<u8>);

/// One frame in palette colors.
pub struct IndexedFrame {
    pub width: u16,
    pub height: u16,
    pub indices: Vec<u8>,
    /// The frame's own palette; `None` to use the palette of the stream.
    pub palette: Option<Vec<u8>>,
    pub transparent: Option<u8>,
}

impl IndexedFrame {
    /// What the frame shows.
    pub open spec fn content(&self) -> (Seq<u8>, Option<Seq<u8>>, Option<u8>) {
        (
            self.indices@,
            match self.palette {
                Some(p) => Some(p@),
                None => None,
            },
            self.transparent,
        )
    }
}

/// `gif::Frame::from_rgba_speed` reduces an RGBA image to a palette of its own. It panics
/// unless the buffer holds `width * height` pixels and the speed is between 1 and 30.
#[verifier::external_body]
fn quantize(width: u16, height: u16, rgba: Vec<u8>, speed: i32) -> (r: IndexedFrame)
    requires
        rgba@.len() == width * height * 4,
        1 <= speed <= 30,
    ensures
        r.width == width,
        r.height == height,
        r.content() == gif_quantized(width, height, rgba@, speed as int),
        r.indices@.len() == width * height,
        r.palette is Some,
{
    let mut pixels = rgba;
    let frame = gif::Frame::from_rgba_speed(width, height, &mut pixels, speed);
    IndexedFrame {
        width,
        height,
        indices: frame.buffer.into_owned(),
        palette: frame.palette,
        transparent: frame.transparent,
    }
}

/// The longest side that is resampled. Centres of pixels are computed in `f32`: up to this
/// size they are off by a fraction of a pixel, far less than the filter's reach, while on
/// sides of tens of millions of pixels the filter can miss every source pixel.
pub const MAX_RESIZE_SIDE: u32 = 1_048_576;

/// The image sizes that can be resampled: no side is too long, and memory can hold four
/// `f32` for each pixel of the vertically resampled image and four bytes for each pixel of
/// the result.
pub open spec fn resizable(width: u32, height: u32, out_width: u32, out_height: u32) -> bool {
    &&& width <= MAX_RESIZE_SIDE
    &&& height <= MAX_RESIZE_SIDE
    &&& out_width <= MAX_RESIZE_SIDE
    &&& out_height <= MAX_RESIZE_SIDE
    &&& width * out_height * 16 <= isize::MAX
    &&& out_width * out_height * 4 <= isize::MAX
}

/// May `image::imageops::resize`, with the Lanczos3 filter, turn an image of
/// `width * height` RGBA pixels into `out`, of `out_width * out_height` pixels? The filter
/// goes through the platform's sine, so that an image may have more than one outcome.
pub uninterp spec fn lanczos3_outcome(
    rgba: Seq<u8>,
    width: u32,
    height: u32,
    out_width: u32,
    out_height: u32,
    out: Seq<u8>,
) -> bool;

/// `image::imageops::resize` with the Lanczos3 filter, on an image made by
/// `image::ImageBuffer::from_raw`. `from_raw` returns `None` for a buffer with fewer than
/// `width * height` pixels. Which bytes a resampled image holds is left to the platform;
/// their number is fixed, and a result of the source's own size is a copy of its pixels.
#[verifier::external_body]
pub(crate) fn resize_rgba(rgba: Vec<u8>, width: u32, height: u32, out_width: u32, out_height: u32) -> (r:
    Option<Vec<u8>>)
    requires
        width > 0,
        height > 0,
        out_width > 0,
        out_height > 0,
        resizable(width, height, out_width, out_height),
    ensures
        match r {
            Some(out) => {
                &&& width * height * 4 <= rgba@.len()
                &&& lanczos3_outcome(rgba@, width, height, out_width, out_height, out@)
                &&& out@.len() == out_width * out_height * 4
                &&& (out_width == width && out_height == height) ==> out@ == rgba@.take(
                    width * height * 4,
                )
            },
            None => width * height * 4 > rgba@.len(),
        },
{
    let src: image::RgbaImage = image::ImageBuffer::from_raw(width, height, rgba)?;
    let filter = image::imageops::FilterType::Lanczos3;
    Some(image::imageops::resize(&src, out_width, out_height, filter).into_raw())
}

/// A captured frame kept until the palette is trained. Times are in nanoseconds since the
/// session's start.
pub struct WarmupFrame {
    pub rgba: Vec<u8>,
    pub width: u32,
    pub height: u32,
    pub captured_at: u64,
}

/// The training pixels of a warmup buffer: the samples of every frame, in order.
pub open spec fn training_samples(buffer: Seq<WarmupFrame>) -> Seq<u8>
    decreases buffer.len(),
{
    if buffer.len() == 0 {
        Seq::empty()
    } else {
        training_samples(buffer.drop_last()) + pixels::samples_of(buffer.last().rgba@)
    }
}

/// Train a palette on a sparse sample of pixels drawn from every warmup frame, so that it
/// captures color variation across the recording rather than just one instant.
pub fn train_global_palette(buffer: &Vec<WarmupFrame>) -> (r: GlobalPalette)
    ensures
        r.trained_on() == training_samples(buffer@),
{
    let mut samples: Vec<u8> = Vec::new();
    let mut i: usize = 0;
    assert(buffer@.take(0) =~= Seq::empty());
    while i < buffer.len()
        invariant
            i <= buffer.len(),
            samples@ == training_samples(buffer@.take(i as int)),
        decreases buffer.len() - i,
    {
        assert(buffer@.take(i + 1).drop_last() =~= buffer@.take(i as int));
        push_samples(&mut samples, &buffer[i].rgba);
        i += 1;
    }
    assert(buffer@.take(buffer@.len() as int) =~= buffer@);
    GlobalPalette::train(samples)
}

/// The palette entry of every whole pixel.
pub open spec fn indexed(palette: GlobalPalette, rgba: Seq<u8>) -> Seq<u8> {
    Seq::new(
        rgba.len() / 4,
        |k: int| palette.entry(rgba.subrange(4 * k, 4 * k + 4)) as u8,
    )
}

/// Find the palette entry of every whole pixel.
pub fn index_pixels(palette: &GlobalPalette, rgba: &Vec<u8>) -> (r: Vec<u8>)
    ensures
        r@ == indexed(*palette, rgba@),
{
    let n: usize = rgba.len() / 4;
    let mut out: Vec<u8> = Vec::new();
    let mut k: usize = 0;
    while k < n
        invariant
            k <= n,
            n == rgba@.len() / 4,
            rgba@.len() <= usize::MAX,
            out@ == indexed(*palette, rgba@).take(k as int),
        decreases n - k,
    {
        let pixel = [rgba[4 * k], rgba[4 * k + 1], rgba[4 * k + 2], rgba[4 * k + 3]];
        let ghost px = rgba@.subrange(4 * k, 4 * k + 4);
        assert(pixel@ =~= px);
        let i: usize = palette.index_of(&pixel);
        out.push(i as u8);
        assert(out@ =~= indexed(*palette, rgba@).take(k + 1));
        k += 1;
    }
    assert(out@ =~= indexed(*palette, rgba@));
    out
}

/// Reduce an RGBA image to a palette of its own.
pub fn quantize_frame(width: u16, height: u16, rgba: Vec<u8>) -> (r: IndexedFrame)
    requires
        rgba@.len() == width * height * 4,
    ensures
        r.width == width,
        r.height == height,
        r.content() == gif_quantized(width, height, rgba@, SAMPLE_FACTOR as int),
        r.indices@.len() == width * height,
        r.palette is Some,
{
    quantize(width, height, rgba, SAMPLE_FACTOR)
}

/// Index an RGBA image, its alpha made opaque or clear first, against a shared palette.
pub fn index_frame(width: u16, height: u16, rgba: Vec<u8>, palette: &GlobalPalette) -> (r:
    IndexedFrame)
    ensures
        r.width == width,
        r.height == height,
        r.content() == (
            indexed(*palette, pixels::with_hard_alpha(rgba@)),
            None::<Seq<u8>>,
            None::<u8>,
        ),
{
    let mut rgba = rgba;
    pixels::harden_alpha(&mut rgba);
    let indices = index_pixels(palette, &rgba);
    IndexedFrame { width, height, indices, palette: None, transparent: None }
}

} // verus!
