//! Decoded images: the pixel buffer that every other stage consumes.

use crate::dimensions::{
    lemma_proxy_bounds, lemma_target_bounds, proxy_dimensions, proxy_size, target_dimensions,
    target_size,
};
use vstd::prelude::*;

verus! {

/// How one pixel of a decoded image is laid out in memory.
#[derive(Clone, Copy, Debug, PartialEq, Eq, Structural)]
pub enum ColorMode {
    /// 8-bit luminance.
    L8,
    /// 8-bit luminance with alpha.
    La8,
    /// 8-bit red, green, blue.
    Rgb8,
    /// 8-bit red, green, blue, alpha.
    Rgba8,
    /// 16-bit luminance.
    L16,
    /// 16-bit luminance with alpha.
    La16,
    /// 16-bit red, green, blue.
    Rgb16,
    /// 16-bit red, green, blue, alpha.
    Rgba16,
    /// Floating-point red, green, blue.
    RgbFloat,
    /// Floating-point red, green, blue, alpha.
    RgbaFloat,
    /// A layout this library does not know.
    Unknown,
}

/// Resampling filter used when an image is scaled.
#[derive(Clone, Copy, Debug, PartialEq, Eq, Structural)]
pub enum Filter {
    /// Fast bilinear-class filter, used for estimates.
    Triangle,
    /// High-quality windowed-sinc filter, used for final output.
    Lanczos3,
}

/// The filter that images are resized with for output.
pub const OUTPUT_FILTER: Filter = Filter::Lanczos3;

/// The filter that proxies for size estimates are made with.
pub const PROXY_FILTER: Filter = Filter::Triangle;

/// Number of bytes one pixel of the given layout occupies; 0 for an
/// unknown layout.
pub open spec fn bytes_per_pixel(color: ColorMode) -> nat {
    match color {
        ColorMode::L8 => 1,
        ColorMode::La8 => 2,
        ColorMode::Rgb8 => 3,
        ColorMode::Rgba8 => 4,
        ColorMode::L16 => 2,
        ColorMode::La16 => 4,
        ColorMode::Rgb16 => 6,
        ColorMode::Rgba16 => 8,
        ColorMode::RgbFloat => 12,
        ColorMode::RgbaFloat => 16,
        ColorMode::Unknown => 0,
    }
}

/// The mathematical content of a decoded image: its dimensions, its pixel
/// layout and its samples, row by row. A sample wider than a byte stands
/// with its least significant byte first.
pub struct Raster {
    pub width: nat,
    pub height: nat,
    pub color: ColorMode,
    pub samples: Seq<u8>,
}

impl Raster {
    /// A raster is well formed when it is not empty, its layout is known
    /// and it holds exactly one sample group per pixel.
    pub open spec fn well_formed(self) -> bool {
        &&& 1 <= self.width <= u32::MAX
        &&& 1 <= self.height <= u32::MAX
        &&& self.color != ColorMode::Unknown
        &&& self.samples.len() == self.width * self.height * bytes_per_pixel(self.color)
    }
}

#[verifier::external_type_specification]
#[verifier::external_body]
pub struct ExDynamicImage(image::DynamicImage);

/// The samples that an `image::DynamicImage` holds, row by row, each with
/// its least significant byte first: as many bytes as `as_bytes()` has,
/// and on a little-endian machine the same bytes.
pub uninterp spec fn samples_of(pixels: image::DynamicImage) -> Seq<u8>;

/// The shape that an `image::DynamicImage` was made with: `width()`,
/// `height()` and `color()` of the value, in this order.
pub uninterp spec fn shape_of(pixels: image::DynamicImage) -> (nat, nat, ColorMode);

/// What an `image::DynamicImage` holds, as one record.
pub open spec fn raster_of(pixels: image::DynamicImage) -> Raster {
    Raster {
        width: shape_of(pixels).0,
        height: shape_of(pixels).1,
        color: shape_of(pixels).2,
        samples: samples_of(pixels),
    }
}

/// `DynamicImage::width`: the width of the pixel grid.
#[verifier::external_body]
fn raw_width(pixels: &image::DynamicImage) -> (w: u32)
    ensures
        w == shape_of(*pixels).0,
{
    pixels.width()
}

/// `DynamicImage::height`: the height of the pixel grid.
#[verifier::external_body]
fn raw_height(pixels: &image::DynamicImage) -> (h: u32)
    ensures
        h == shape_of(*pixels).1,
{
    pixels.height()
}

/// `DynamicImage::color`: which of the crate's pixel layouts the value has.
#[verifier::external_body]
fn raw_color(pixels: &image::DynamicImage) -> (c: ColorMode)
    ensures
        c == shape_of(*pixels).2,
{
    match pixels.color() {
        image::ColorType::L8 => ColorMode::L8,
        image::ColorType::La8 => ColorMode::La8,
        image::ColorType::Rgb8 => ColorMode::Rgb8,
        image::ColorType::Rgba8 => ColorMode::Rgba8,
        image::ColorType::L16 => ColorMode::L16,
        image::ColorType::La16 => ColorMode::La16,
        image::ColorType::Rgb16 => ColorMode::Rgb16,
        image::ColorType::Rgba16 => ColorMode::Rgba16,
        image::ColorType::Rgb32F => ColorMode::RgbFloat,
        image::ColorType::Rgba32F => ColorMode::RgbaFloat,
        _ => ColorMode::Unknown,
    }
}

/// `DynamicImage::as_bytes`, of which only the length is taken: the number
/// of bytes that the samples of the value occupy.
#[verifier::external_body]
fn raw_len(pixels: &image::DynamicImage) -> (n: usize)
    ensures
        n == samples_of(*pixels).len(),
{
    pixels.as_bytes().len()
}

/// `DynamicImage::resize_exact`: the result has exactly the dimensions
/// asked for and the layout of the source, with one group of samples per
/// pixel. The samples themselves come from the crate's sampler, whose
/// kernels may round differently from one machine to the next, so nothing
/// is said of them. Called only to shrink an image that is not empty.
#[verifier::external_body]
fn resample(pixels: &image::DynamicImage, width: u32, height: u32, filter: Filter) -> (out:
    image::DynamicImage)
    requires
        raster_of(*pixels).well_formed(),
        1 <= width <= raster_of(*pixels).width,
        1 <= height <= raster_of(*pixels).height,
    ensures
        shape_of(out) == (width as nat, height as nat, shape_of(*pixels).2),
        samples_of(out).len() == width * height * bytes_per_pixel(shape_of(*pixels).2),
{
    let kernel = match filter {
        Filter::Triangle => image::imageops::FilterType::Triangle,
        Filter::Lanczos3 => image::imageops::FilterType::Lanczos3,
    };
    pixels.resize_exact(width, height, kernel)
}

/// Executable counterpart of [`bytes_per_pixel`].
pub fn pixel_size(color: ColorMode) -> (n: u64)
    ensures
        n == bytes_per_pixel(color),
{
    match color {
        ColorMode::L8 => 1,
        ColorMode::La8 => 2,
        ColorMode::Rgb8 => 3,
        ColorMode::Rgba8 => 4,
        ColorMode::L16 => 2,
        ColorMode::La16 => 4,
        ColorMode::Rgb16 => 6,
        ColorMode::Rgba16 => 8,
        ColorMode::RgbFloat => 12,
        ColorMode::RgbaFloat => 16,
        ColorMode::Unknown => 0,
    }
}

/// A decoded image, known to be well formed.
pub struct DecodedImage {
    pixels: image::DynamicImage,
}

impl View for DecodedImage {
    type V = Raster;

    closed spec fn view(&self) -> Raster {
        raster_of(self.pixels)
    }
}

impl DecodedImage {
    #[verifier::type_invariant]
    spec fn inv(self) -> bool {
        raster_of(self.pixels).well_formed()
    }

    /// Accepts a decoded image if it is well formed: not empty, of a known
    /// layout, with exactly as many sample bytes as its dimensions ask for.
    pub fn from_dynamic(pixels: image::DynamicImage) -> (r: Option<DecodedImage>)
        ensures
            r is Some <==> raster_of(pixels).well_formed(),
            r matches Some(img) ==> img@ == raster_of(pixels),
    {
        let w = raw_width(&pixels);
        let h = raw_height(&pixels);
        let c = raw_color(&pixels);
        let n = raw_len(&pixels);
        if w == 0 || h == 0 || c == ColorMode::Unknown {
            return None;
        }
        let bpp = pixel_size(c);
        assert((w as int) * (h as int) <= 0xFFFF_FFFF * 0xFFFF_FFFF) by (nonlinear_arith)
            requires
                0 <= w <= 0xFFFF_FFFF,
                0 <= h <= 0xFFFF_FFFF,
        ;
        let area: u64 = (w as u64) * (h as u64);
        assert((area as int) * (bpp as int) <= 0xFFFF_FFFF_FFFF_FFFF * 16) by (nonlinear_arith)
            requires
                0 <= area <= 0xFFFF_FFFF_FFFF_FFFF,
                0 <= bpp <= 16,
        ;
        let expected: u128 = (area as u128) * (bpp as u128);
        if (n as u128) != expected {
            return None;
        }
        Some(DecodedImage { pixels })
    }

    /// The image as the `image` crate holds it.
    pub fn as_dynamic(&self) -> (pixels: &image::DynamicImage)
        ensures
            raster_of(*pixels) == self@,
            self@.well_formed(),
    {
        proof {
            use_type_invariant(self);
        }
        &self.pixels
    }

    /// Gives the image back as the `image` crate holds it.
    pub fn into_dynamic(self) -> (pixels: image::DynamicImage)
        ensures
            raster_of(pixels) == self@,
            self@.well_formed(),
    {
        proof {
            use_type_invariant(&self);
        }
        self.pixels
    }

    /// Shrinks the image to `width` x `height`.
    fn shrink(&self, width: u32, height: u32, filter: Filter) -> (out: DecodedImage)
        requires
            1 <= width <= self@.width,
            1 <= height <= self@.height,
        ensures
            out@.well_formed(),
            size_of(out@) == (width as int, height as int),
            out@.color == self@.color,
    {
        proof {
            use_type_invariant(self);
        }
        let pixels = resample(&self.pixels, width, height, filter);
        DecodedImage { pixels }
    }

    /// Resizes the image for output under the given caps, with
    /// [`OUTPUT_FILTER`]. Gives nothing where the image already fits both
    /// caps: the image is then written as it is.
    pub fn resize_to_fit(&self, max_width: Option<u32>, max_height: Option<u32>) -> (out: Option<
        DecodedImage,
    >)
        ensures
            out is None <==> target_size(
                self@.width as int,
                self@.height as int,
                max_width,
                max_height,
            ) == size_of(self@),
            is_output_of(
                match out {
                    Some(img) => img@,
                    None => self@,
                },
                self@,
                max_width,
                max_height,
            ),
    {
        let w = self.width();
        let h = self.height();
        let target = target_dimensions(w, h, max_width, max_height);
        if target.0 == w && target.1 == h {
            None
        } else {
            proof {
                lemma_target_bounds(w as int, h as int, max_width, max_height);
            }
            Some(self.shrink(target.0, target.1, OUTPUT_FILTER))
        }
    }

    /// Makes the image that a size estimate is measured on, with
    /// [`PROXY_FILTER`]. Gives nothing where that is the image itself.
    pub fn proxy(&self, max_width: Option<u32>, max_height: Option<u32>) -> (out: Option<
        DecodedImage,
    >)
        ensures
            out is None <==> proxy_size(
                self@.width as int,
                self@.height as int,
                max_width,
                max_height,
            ) == size_of(self@),
            is_proxy_of(
                match out {
                    Some(img) => img@,
                    None => self@,
                },
                self@,
                max_width,
                max_height,
            ),
    {
        let w = self.width();
        let h = self.height();
        let size = proxy_dimensions(w, h, max_width, max_height);
        if size.0 == w && size.1 == h {
            None
        } else {
            proof {
                lemma_proxy_bounds(w as int, h as int, max_width, max_height);
            }
            Some(self.shrink(size.0, size.1, PROXY_FILTER))
        }
    }

    /// Width in pixels.
    pub fn width(&self) -> (w: u32)
        ensures
            w == self@.width,
            self@.well_formed(),
    {
        proof {
            use_type_invariant(self);
        }
        raw_width(&self.pixels)
    }

    /// Height in pixels.
    pub fn height(&self) -> (h: u32)
        ensures
            h == self@.height,
            self@.well_formed(),
    {
        proof {
            use_type_invariant(self);
        }
        raw_height(&self.pixels)
    }

    /// Pixel layout.
    pub fn color(&self) -> (c: ColorMode)
        ensures
            c == self@.color,
            self@.well_formed(),
    {
        proof {
            use_type_invariant(self);
        }
        raw_color(&self.pixels)
    }
}

/// The dimensions of an image as a pair.
pub open spec fn size_of(image: Raster) -> (int, int) {
    (image.width as int, image.height as int)
}

/// Whether `image` is `source` scaled to the given size: well formed, of
/// that size and of the layout of `source`; or `source` itself where that
/// has the size already.
pub open spec fn is_scaled(image: Raster, source: Raster, size: (int, int)) -> bool {
    if size == size_of(source) {
        image == source
    } else {
        image.well_formed() && size_of(image) == size && image.color == source.color
    }
}

/// Whether `image` is what is written for `source` under the given caps:
/// `source` itself where it fits them, else `source` scaled to its target
/// size.
pub open spec fn is_output_of(
    image: Raster,
    source: Raster,
    max_w: Option<u32>,
    max_h: Option<u32>,
) -> bool {
    is_scaled(image, source, target_size(source.width as int, source.height as int, max_w, max_h))
}

/// Whether `image` is what an estimate for `source` is measured on:
/// `source` itself where it has the proxy size, else `source` scaled to
/// that size.
pub open spec fn is_proxy_of(
    image: Raster,
    source: Raster,
    max_w: Option<u32>,
    max_h: Option<u32>,
) -> bool {
    is_scaled(image, source, proxy_size(source.width as int, source.height as int, max_w, max_h))
}

/// The image that is written has exactly the target dimensions, and the
/// image that an estimate is measured on the proxy dimensions; both are
/// well formed and keep the layout of the image they are made from.
pub proof fn lemma_sizes_as_computed(
    image: Raster,
    source: Raster,
    max_w: Option<u32>,
    max_h: Option<u32>,
)
    requires
        source.well_formed(),
    ensures
        is_output_of(image, source, max_w, max_h) ==> image.well_formed() && image.color
            == source.color && size_of(image) == target_size(
            source.width as int,
            source.height as int,
            max_w,
            max_h,
        ),
        is_proxy_of(image, source, max_w, max_h) ==> image.well_formed() && image.color
            == source.color && size_of(image) == proxy_size(
            source.width as int,
            source.height as int,
            max_w,
            max_h,
        ),
{
}

} // verus!
