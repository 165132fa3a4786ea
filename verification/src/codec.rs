//! The format codec adapter: one encoder per output format.
//!
//! JPEG and WebP are encoded directly at the configured quality. PNG is
//! reduced to a palette first and written as an 8-bit indexed image. AVIF
//! is encoded from RGBA at a fixed speed. Any other tag is read as a file
//! extension and handed to the generic encoder for that format.

use crate::format::{format_of_tag, get_image_format, OutputFormat};
use crate::raster::{raster_of, ColorMode, DecodedImage, Raster};
use rgb::{ComponentBytes, FromSlice};
use vstd::prelude::*;

verus! {

/// Encoder speed for AVIF, on the encoder's scale from 1 (slowest) to 10.
pub const AVIF_SPEED: u8 = 4;

/// The largest width and the largest height of a WebP image, in pixels.
pub const WEBP_MAX_SIDE: u32 = 16383;

/// How far below the configured quality the quantizer may go.
pub const QUANTIZER_BAND: u8 = 20;

/// What went wrong in an encoder.
#[derive(Clone, Copy, Debug, PartialEq, Eq, Structural)]
pub enum ErrorKind {
    /// The image is wider or higher than the WebP format allows.
    WebpSize,
    /// The WebP encoder does not take images of this layout.
    WebpInit,
    /// The WebP encoder failed.
    Webp,
    /// The AVIF encoder takes qualities from 1 to 100 only.
    AvifQuality,
    /// The AVIF encoder failed.
    Avif,
    /// The quantizer refused the quality range.
    QuantizerConfig,
    /// The quantizer refused the image.
    QuantizerImage,
    /// The quantizer could not build a palette.
    Quantize,
    /// The quantizer could not map the image onto its palette.
    Remap,
    /// The quantizer returned a palette without colours.
    EmptyPalette,
    /// The PNG writer failed.
    Png,
    /// The JPEG encoder failed.
    Jpeg,
    /// The tag names no format that the generic encoder knows.
    UnknownFormat,
    /// The generic encoder failed.
    Generic,
}

/// An encoder failure: what failed, and what the encoder said about it.
#[derive(Debug)]
pub struct EncodeError {
    pub kind: ErrorKind,
    pub detail: String,
}

impl View for EncodeError {
    type V = (ErrorKind, Seq<char>);

    open spec fn view(&self) -> (ErrorKind, Seq<char>) {
        (self.kind, self.detail@)
    }
}

/// The text that precedes the encoder's own words in an error message.
pub open spec fn error_prefix(kind: ErrorKind) -> Seq<char> {
    match kind {
        ErrorKind::WebpSize => "Erreur WebP: image too large"@,
        ErrorKind::WebpInit => "Erreur init WebP"@,
        ErrorKind::Webp => "Erreur WebP: "@,
        ErrorKind::AvifQuality => "Erreur AVIF: quality out of range"@,
        ErrorKind::Avif => "Erreur AVIF: "@,
        ErrorKind::QuantizerConfig => "Liq config: "@,
        ErrorKind::QuantizerImage => "Liq image: "@,
        ErrorKind::Quantize => "Liq quantize: "@,
        ErrorKind::Remap => "Liq remap: "@,
        ErrorKind::EmptyPalette => "Liq remap: empty palette"@,
        ErrorKind::Png => ""@,
        ErrorKind::Jpeg => ""@,
        ErrorKind::UnknownFormat => "Unsupported format: "@,
        ErrorKind::Generic => ""@,
    }
}

/// The message of an encoder failure: the prefix of its kind, then the
/// encoder's own words.
pub open spec fn error_text(error: (ErrorKind, Seq<char>)) -> Seq<char> {
    error_prefix(error.0) + error.1
}

impl EncodeError {
    /// A failure that needs no further words.
    pub fn bare(kind: ErrorKind) -> (e: EncodeError)
        ensures
            e@ == (kind, Seq::<char>::empty()),
    {
        EncodeError { kind, detail: String::new() }
    }

    /// The message to report for this failure; see [`error_text`].
    pub fn message(&self) -> (text: String)
        ensures
            text@ == error_text(self@),
    {
        let prefix = match self.kind {
            ErrorKind::WebpSize => "Erreur WebP: image too large",
            ErrorKind::WebpInit => "Erreur init WebP",
            ErrorKind::Webp => "Erreur WebP: ",
            ErrorKind::AvifQuality => "Erreur AVIF: quality out of range",
            ErrorKind::Avif => "Erreur AVIF: ",
            ErrorKind::QuantizerConfig => "Liq config: ",
            ErrorKind::QuantizerImage => "Liq image: ",
            ErrorKind::Quantize => "Liq quantize: ",
            ErrorKind::Remap => "Liq remap: ",
            ErrorKind::EmptyPalette => "Liq remap: empty palette",
            ErrorKind::Png => "",
            ErrorKind::Jpeg => "",
            ErrorKind::UnknownFormat => "Unsupported format: ",
            ErrorKind::Generic => "",
        };
        let mut text = String::from_str(prefix);
        text.append(self.detail.as_str());
        text
    }
}

/// An encoder's result as plain values: the bytes, or the kind of failure
/// and its words.
pub type Outcome = Result<Seq<u8>, (ErrorKind, Seq<char>)>;

/// The plain value of an encoder's result.
pub open spec fn outcome_of(r: Result<Vec<u8>, EncodeError>) -> Outcome {
    match r {
        Ok(bytes) => Ok(bytes@),
        Err(e) => Err(e@),
    }
}

/// The plain value of what an outside encoder hands back: bytes, or its
/// error message.
pub open spec fn raw_view(raw: Result<Vec<u8>, String>) -> Result<Seq<u8>, Seq<char>> {
    match raw {
        Ok(bytes) => Ok(bytes@),
        Err(msg) => Err(msg@),
    }
}

/// An outside encoder's result with its error message filed under `kind`.
pub open spec fn filed(raw: Result<Seq<u8>, Seq<char>>, kind: ErrorKind) -> Outcome {
    match raw {
        Ok(bytes) => Ok(bytes),
        Err(msg) => Err((kind, msg)),
    }
}

/// Files an outside encoder's error message under `kind`; the bytes of a
/// success pass through.
pub fn file_under(raw: Result<Vec<u8>, String>, kind: ErrorKind) -> (r: Result<
    Vec<u8>,
    EncodeError,
>)
    ensures
        outcome_of(r) == filed(raw_view(raw), kind),
{
    match raw {
        Ok(bytes) => Ok(bytes),
        Err(detail) => Err(EncodeError { kind, detail }),
    }
}

// ---------------------------------------------------------------- JPEG

/// What `JpegEncoder::new_with_quality(..).encode(..)` writes for an image
/// and a quality, or the message of the error it returns.
pub uninterp spec fn jpeg_encoding(image: Raster, quality: u8) -> Result<Seq<u8>, Seq<char>>;

/// `image::codecs::jpeg::JpegEncoder::new_with_quality` and `encode`, on
/// the image's own bytes, dimensions and layout. The encoder takes 8-bit
/// luminance and 8-bit RGB only and returns an error for every other
/// layout, and for an image wider or higher than 65535 pixels. It panics
/// where the buffer length does not match the dimensions, which a
/// well-formed image rules out.
#[verifier::external_body]
fn jpeg_encode(pixels: &image::DynamicImage, quality: u8) -> (raw: Result<Vec<u8>, String>)
    requires
        raster_of(*pixels).well_formed(),
    ensures
        raw_view(raw) == jpeg_encoding(raster_of(*pixels), quality),
        !jpeg_takes(raster_of(*pixels).color) ==> raw is Err,
        raster_of(*pixels).width > 0xFFFF || raster_of(*pixels).height > 0xFFFF ==> raw is Err,
{
    let mut out = Vec::new();
    let mut encoder = image::codecs::jpeg::JpegEncoder::new_with_quality(&mut out, quality);
    let color = pixels.color().into();
    match encoder.encode(pixels.as_bytes(), pixels.width(), pixels.height(), color) {
        Ok(()) => Ok(out),
        Err(e) => Err(e.to_string()),
    }
}

/// Encodes an image as JPEG at the given quality.
pub fn encode_jpeg(img: &DecodedImage, quality: u8) -> (r: Result<Vec<u8>, EncodeError>)
    ensures
        outcome_of(r) == filed(jpeg_encoding(img@, quality), ErrorKind::Jpeg),
        !jpeg_takes(img@.color) ==> r is Err,
        img@.width > 0xFFFF || img@.height > 0xFFFF ==> r is Err,
{
    file_under(jpeg_encode(img.as_dynamic(), quality), ErrorKind::Jpeg)
}

// ---------------------------------------------------------------- WebP

/// What the WebP encoder hands back: bytes; nothing, where it does not
/// take the image; or the name of the error that encoding ended with.
pub uninterp spec fn webp_encoding(image: Raster, quality: u8) -> Result<
    Seq<u8>,
    Option<Seq<char>>,
>;

/// The layouts that the WebP encoder takes: 8-bit RGB and 8-bit RGBA.
pub open spec fn webp_takes(color: ColorMode) -> bool {
    color == ColorMode::Rgb8 || color == ColorMode::Rgba8
}

/// The layouts that the JPEG encoder takes: 8-bit luminance and 8-bit RGB.
pub open spec fn jpeg_takes(color: ColorMode) -> bool {
    color == ColorMode::L8 || color == ColorMode::Rgb8
}

/// The plain value of the WebP wrapper's result.
pub open spec fn webp_view(raw: Result<Vec<u8>, Option<String>>) -> Result<
    Seq<u8>,
    Option<Seq<char>>,
> {
    match raw {
        Ok(bytes) => Ok(bytes@),
        Err(Some(msg)) => Err(Some(msg@)),
        Err(None) => Err(None),
    }
}

/// `webp::Encoder::from_image`, then `Encoder::encode_simple` with lossy
/// settings at the given quality. `from_image` takes 8-bit RGB and 8-bit
/// RGBA and refuses every other layout; that refusal is the `Err(None)`.
/// `encode_simple` is `Encoder::encode` without the panic: where the codec
/// fails, its error comes back by name. The crate computes the length of a
/// row in 32 bits before the codec looks at the dimensions, which
/// overflows for very wide images; the call is made only within the
/// format's own limit.
#[verifier::external_body]
fn webp_encode(pixels: &image::DynamicImage, quality: u8) -> (raw: Result<Vec<u8>, Option<String>>)
    requires
        raster_of(*pixels).width <= WEBP_MAX_SIDE,
        raster_of(*pixels).height <= WEBP_MAX_SIDE,
    ensures
        webp_view(raw) == webp_encoding(raster_of(*pixels), quality),
        raw matches Err(None) <==> !webp_takes(raster_of(*pixels).color),
{
    match webp::Encoder::from_image(pixels) {
        Ok(encoder) => match encoder.encode_simple(false, quality.into()) {
            Ok(memory) => Ok(memory.to_vec()),
            Err(e) => Err(Some(format!("{:?}", e))),
        },
        Err(_) => Err(None),
    }
}

/// What the WebP encoder's result becomes.
pub open spec fn webp_outcome(raw: Result<Seq<u8>, Option<Seq<char>>>) -> Outcome {
    match raw {
        Ok(bytes) => Ok(bytes),
        Err(Some(msg)) => Err((ErrorKind::Webp, msg)),
        Err(None) => Err((ErrorKind::WebpInit, Seq::<char>::empty())),
    }
}

/// What encoding an image as WebP gives: an image with a side above
/// [`WEBP_MAX_SIDE`] is refused before the encoder is asked; for any other
/// image, what the encoder hands back decides.
pub open spec fn webp_result(image: Raster, quality: u8) -> Outcome {
    if image.width > WEBP_MAX_SIDE || image.height > WEBP_MAX_SIDE {
        Err((ErrorKind::WebpSize, Seq::<char>::empty()))
    } else {
        webp_outcome(webp_encoding(image, quality))
    }
}

/// Encodes an image as lossy WebP at the given quality. An image with a
/// side above [`WEBP_MAX_SIDE`] is refused, and so is one within that limit
/// that is neither 8-bit RGB nor 8-bit RGBA.
pub fn encode_webp(img: &DecodedImage, quality: u8) -> (r: Result<Vec<u8>, EncodeError>)
    ensures
        outcome_of(r) == webp_result(img@, quality),
        outcome_of(r) == Err::<Seq<u8>, _>((ErrorKind::WebpInit, Seq::<char>::empty()))
            <==> img@.width <= WEBP_MAX_SIDE && img@.height <= WEBP_MAX_SIDE && !webp_takes(
            img@.color,
        ),
{
    if img.width() > WEBP_MAX_SIDE || img.height() > WEBP_MAX_SIDE {
        return Err(EncodeError::bare(ErrorKind::WebpSize));
    }
    match webp_encode(img.as_dynamic(), quality) {
        Ok(bytes) => Ok(bytes),
        Err(Some(detail)) => Err(EncodeError { kind: ErrorKind::Webp, detail }),
        Err(None) => Err(EncodeError::bare(ErrorKind::WebpInit)),
    }
}

// ---------------------------------------------------------------- RGBA

/// What `DynamicImage::to_rgba8` computes: the image as 8-bit RGBA
/// samples, four per pixel.
pub uninterp spec fn rgba8_samples(image: Raster) -> Seq<u8>;

/// `DynamicImage::to_rgba8` and `ImageBuffer::into_raw`: a copy of the
/// image converted to 8-bit RGBA, four bytes for each of its pixels. An
/// image that is RGBA already is copied with its buffer as it is, which
/// for a well-formed image holds no more than its pixels.
#[verifier::external_body]
fn to_rgba8(pixels: &image::DynamicImage) -> (rgba: Vec<u8>)
    requires
        raster_of(*pixels).well_formed(),
    ensures
        rgba@ == rgba8_samples(raster_of(*pixels)),
        rgba@.len() == raster_of(*pixels).width * raster_of(*pixels).height * 4,
{
    pixels.to_rgba8().into_raw()
}

// ---------------------------------------------------------------- AVIF

/// `ravif::Encoder::new`, `with_quality`, `with_speed` and `encode_rgba` on
/// an `imgref::Img` of the RGBA pixels. The builder panics on a quality
/// outside 1..=100 or a speed outside 1..=10, `Img::new` on a width of
/// zero, and the encoder on a buffer shorter than the image. The bytes
/// depend on how many threads the encoder finds, so nothing is said of
/// them.
#[verifier::external_body]
fn avif_encode(rgba: &Vec<u8>, width: u32, height: u32, quality: u8, speed: u8) -> (raw: Result<
    Vec<u8>,
    String,
>)
    requires
        1 <= quality <= 100,
        1 <= speed <= 10,
        width >= 1,
        height >= 1,
        rgba@.len() == width * height * 4,
{
    let img = imgref::Img::new(rgba.as_rgba(), width as usize, height as usize);
    let encoder = ravif::Encoder::new().with_quality(quality.into()).with_speed(speed);
    match encoder.encode_rgba(img) {
        Ok(encoded) => Ok(encoded.avif_file),
        Err(e) => Err(e.to_string()),
    }
}

/// What may come of encoding AVIF at a quality: a quality outside
/// 1..=100 is refused; within it, the encoder decides.
pub open spec fn avif_allowed(quality: u8, out: Outcome) -> bool {
    if 1 <= quality <= 100 {
        out is Ok || (out is Err && out->Err_0.0 == ErrorKind::Avif)
    } else {
        out == Err::<Seq<u8>, _>((ErrorKind::AvifQuality, Seq::<char>::empty()))
    }
}

/// Encodes an image as AVIF: converted to 8-bit RGBA, at the given
/// quality and at [`AVIF_SPEED`].
pub fn encode_avif(img: &DecodedImage, quality: u8) -> (r: Result<Vec<u8>, EncodeError>)
    ensures
        avif_allowed(quality, outcome_of(r)),
{
    if quality < 1 || quality > 100 {
        return Err(EncodeError::bare(ErrorKind::AvifQuality));
    }
    let width = img.width();
    let height = img.height();
    let rgba = to_rgba8(img.as_dynamic());
    file_under(avif_encode(&rgba, width, height, quality, AVIF_SPEED), ErrorKind::Avif)
}

// ----------------------------------------------------------------- PNG

/// The stage at which the quantizer gave up.
#[derive(Clone, Copy, Debug, PartialEq, Eq, Structural)]
pub enum QuantizerStage {
    /// Setting the quality range.
    Config,
    /// Taking the image.
    Image,
    /// Building the palette.
    Quantize,
    /// Mapping the image onto the palette.
    Remap,
}

/// A palette of RGBA colours, four bytes each, and one palette index per
/// pixel.
pub struct Quantized {
    pub palette: Vec<u8>,
    pub indices: Vec<u8>,
}

/// The lower bound of the quantizer's quality range: [`QUANTIZER_BAND`]
/// below the configured quality, and not below zero.
pub open spec fn quality_floor(quality: u8) -> u8 {
    if quality >= QUANTIZER_BAND {
        (quality - QUANTIZER_BAND) as u8
    } else {
        0
    }
}

/// The quality range handed to the quantizer: from [`quality_floor`] up to
/// the configured quality.
pub fn quantizer_range(quality: u8) -> (range: (u8, u8))
    ensures
        range.0 == quality_floor(quality),
        range.1 == quality,
        range.0 <= range.1,
{
    if quality >= QUANTIZER_BAND {
        (quality - QUANTIZER_BAND, quality)
    } else {
        (0, quality)
    }
}

/// `imagequant::Attributes::new`, `set_quality`, `new_image`, `quantize`
/// and `QuantizationResult::remapped`, in that order, on RGBA pixels with
/// the crate's default gamma. `set_quality` fails exactly where the target
/// is above 100 or below the minimum. A palette has at most 256 colours,
/// handed on as their bytes, and the index map one byte per pixel. The
/// palette may differ from run to run, so nothing more is said of it.
#[verifier::external_body]
fn quantize_rgba(rgba: &Vec<u8>, width: u32, height: u32, floor: u8, target: u8) -> (raw: Result<
    Quantized,
    (QuantizerStage, String),
>)
    ensures
        (raw is Err && raw->Err_0.0 == QuantizerStage::Config) <==> (target > 100 || target < floor),
        raw matches Ok(q) ==> q.palette.len() % 4 == 0 && q.palette.len() <= 1024,
        raw matches Ok(q) ==> q.indices.len() == width * height,
{
    let fail = |stage, e: imagequant::Error| (stage, format!("{:?}", e));
    let mut attr = imagequant::Attributes::new();
    attr.set_quality(floor, target).map_err(|e| fail(QuantizerStage::Config, e))?;
    let mut img = attr.new_image(rgba.as_rgba(), width as usize, height as usize, Default::default())
        .map_err(|e| fail(QuantizerStage::Image, e))?;
    let mut res = attr.quantize(&mut img).map_err(|e| fail(QuantizerStage::Quantize, e))?;
    let (colors, indices) = res.remapped(&mut img).map_err(|e| fail(QuantizerStage::Remap, e))?;
    Ok(Quantized { palette: colors.as_bytes().to_vec(), indices })
}

/// The red, green and blue of each colour of an RGBA palette, in palette
/// order; the alpha of a colour is left out.
pub open spec fn palette_rgb(palette: Seq<u8>) -> Seq<u8> {
    Seq::new((3 * (palette.len() / 4)) as nat, |i: int| palette[4 * (i / 3) + i % 3])
}

/// Lays an RGBA palette out as the bytes of a PNG palette; see
/// [`palette_rgb`].
pub fn flatten_palette(palette: &Vec<u8>) -> (bytes: Vec<u8>)
    ensures
        bytes@ == palette_rgb(palette@),
{
    let colours = palette.len() / 4;
    let mut bytes: Vec<u8> = Vec::new();
    let mut i: usize = 0;
    while i < colours
        invariant
            i <= colours,
            colours == palette.len() / 4,
            bytes@.len() == 3 * i,
            forall|k: int| 0 <= k < 3 * i ==> bytes@[k] == palette@[4 * (k / 3) + k % 3],
        decreases colours - i,
    {
        bytes.push(palette[4 * i]);
        bytes.push(palette[4 * i + 1]);
        bytes.push(palette[4 * i + 2]);
        i = i + 1;
    }
    proof {
        assert(bytes@ =~= palette_rgb(palette@));
    }
    bytes
}

/// The big-endian number in four bytes of `bytes`, from `at` on.
pub open spec fn be32(bytes: Seq<u8>, at: int) -> int {
    bytes[at] * 0x100_0000 + bytes[at + 1] * 0x1_0000 + bytes[at + 2] * 0x100 + bytes[at + 3]
}

/// Whether `bytes` begin as an indexed PNG of 8 bits per pixel does: the
/// PNG signature; a header chunk with the given dimensions, bit depth 8 and
/// colour type 3; then a palette chunk with exactly the given bytes.
pub open spec fn starts_indexed_png(bytes: Seq<u8>, width: u32, height: u32, palette: Seq<u8>) -> bool {
    &&& bytes.len() >= 45 + palette.len()
    &&& bytes.subrange(0, 8) == seq![137u8, 80, 78, 71, 13, 10, 26, 10]
    &&& bytes.subrange(8, 16) == seq![0u8, 0, 0, 13, 73, 72, 68, 82]
    &&& be32(bytes, 16) == width
    &&& be32(bytes, 20) == height
    &&& bytes[24] == 8
    &&& bytes[25] == 3
    &&& be32(bytes, 33) == palette.len()
    &&& bytes.subrange(37, 41) == seq![80u8, 76, 84, 69]
    &&& bytes.subrange(41, 41 + palette.len() as int) == palette
}

/// Whether `bytes` begin as an 8-bit indexed PNG of the given dimensions
/// does, with a palette of RGB colours, at least one and at most 256.
pub open spec fn is_indexed_png(bytes: Seq<u8>, width: nat, height: nat) -> bool {
    &&& bytes.len() >= 48
    &&& bytes.subrange(0, 8) == seq![137u8, 80, 78, 71, 13, 10, 26, 10]
    &&& bytes.subrange(8, 16) == seq![0u8, 0, 0, 13, 73, 72, 68, 82]
    &&& be32(bytes, 16) == width
    &&& be32(bytes, 20) == height
    &&& bytes[24] == 8
    &&& bytes[25] == 3
    &&& bytes.subrange(37, 41) == seq![80u8, 76, 84, 69]
    &&& 3 <= be32(bytes, 33) <= 768
    &&& be32(bytes, 33) % 3 == 0
}

/// What the PNG writer produces for an indexed image, or the message of
/// the error it returns.
pub uninterp spec fn indexed_png_encoding(
    width: u32,
    height: u32,
    palette: Seq<u8>,
    indices: Seq<u8>,
) -> Result<Seq<u8>, Seq<char>>;

/// `png::Encoder::new`, `set_color(Indexed)`, `set_depth(Eight)`,
/// `set_palette`, `write_header`, `Writer::write_image_data` and `finish`.
/// On success the output starts with the PNG signature, the header chunk
/// and, right after it, the palette chunk with the bytes handed in; the
/// writer adds no other chunk before the palette.
#[verifier::external_body]
fn write_indexed_png(width: u32, height: u32, palette: &Vec<u8>, indices: &Vec<u8>) -> (raw: Result<
    Vec<u8>,
    String,
>)
    ensures
        raw_view(raw) == indexed_png_encoding(width, height, palette@, indices@),
        raw matches Ok(bytes) ==> starts_indexed_png(bytes@, width, height, palette@),
{
    let mut out = Vec::new();
    let mut encoder = png::Encoder::new(&mut out, width, height);
    encoder.set_color(png::ColorType::Indexed);
    encoder.set_depth(png::BitDepth::Eight);
    encoder.set_palette(palette.as_slice());
    let mut writer = encoder.write_header().map_err(|e| e.to_string())?;
    writer.write_image_data(indices).map_err(|e| e.to_string())?;
    writer.finish().map_err(|e| e.to_string())?;
    Ok(out)
}

/// The kind of failure that each quantizer stage is reported as.
pub open spec fn stage_kind(stage: QuantizerStage) -> ErrorKind {
    match stage {
        QuantizerStage::Config => ErrorKind::QuantizerConfig,
        QuantizerStage::Image => ErrorKind::QuantizerImage,
        QuantizerStage::Quantize => ErrorKind::Quantize,
        QuantizerStage::Remap => ErrorKind::Remap,
    }
}

/// The PNG that a quantizer result becomes: a failure of the quantizer is
/// reported under its stage, a palette without a whole colour is refused, and
/// anything else is written as an indexed PNG with the palette's RGB.
pub open spec fn png_from(
    width: u32,
    height: u32,
    quantized: Result<(Seq<u8>, Seq<u8>), (QuantizerStage, Seq<char>)>,
) -> Outcome {
    match quantized {
        Err((stage, msg)) => Err((stage_kind(stage), msg)),
        Ok((palette, indices)) => if palette.len() < 4 {
            Err((ErrorKind::EmptyPalette, Seq::<char>::empty()))
        } else {
            filed(
                indexed_png_encoding(width, height, palette_rgb(palette), indices),
                ErrorKind::Png,
            )
        },
    }
}

/// The plain value of a quantizer result.
pub open spec fn quantized_view(raw: Result<Quantized, (QuantizerStage, String)>) -> Result<
    (Seq<u8>, Seq<u8>),
    (QuantizerStage, Seq<char>),
> {
    match raw {
        Ok(q) => Ok((q.palette@, q.indices@)),
        Err((stage, msg)) => Err((stage, msg@)),
    }
}

/// Writes a quantizer result as an indexed PNG; see [`png_from`]. A PNG
/// that comes out is 8-bit indexed, has the dimensions given, and its
/// palette holds the red, green and blue of the quantizer's colours, of
/// which there is at least one.
pub fn write_quantized(
    width: u32,
    height: u32,
    quantized: Result<Quantized, (QuantizerStage, String)>,
) -> (r: Result<Vec<u8>, EncodeError>)
    ensures
        outcome_of(r) == png_from(width, height, quantized_view(quantized)),
        r is Ok ==> quantized is Ok && quantized->Ok_0.palette.len() >= 4,
        r is Ok ==> starts_indexed_png(r->Ok_0@, width, height, palette_rgb(quantized->Ok_0.palette@)),
{
    match quantized {
        Err((stage, detail)) => {
            let kind = match stage {
                QuantizerStage::Config => ErrorKind::QuantizerConfig,
                QuantizerStage::Image => ErrorKind::QuantizerImage,
                QuantizerStage::Quantize => ErrorKind::Quantize,
                QuantizerStage::Remap => ErrorKind::Remap,
            };
            Err(EncodeError { kind, detail })
        },
        Ok(q) => {
            if q.palette.len() < 4 {
                return Err(EncodeError::bare(ErrorKind::EmptyPalette));
            }
            let palette = flatten_palette(&q.palette);
            let raw = write_indexed_png(width, height, &palette, &q.indices);
            file_under(raw, ErrorKind::Png)
        },
    }
}

/// What may come of encoding an image as PNG at a quality: the quantizer
/// refuses its configuration exactly for a quality above 100; a failure is
/// one of the quantizer's stages, an empty palette or the writer's; and a
/// PNG that comes out is 8-bit indexed, of the image's dimensions, with a
/// palette of at least one and at most 256 RGB colours.
pub open spec fn png_allowed(image: Raster, quality: u8, out: Outcome) -> bool {
    &&& (out is Err && out->Err_0.0 == ErrorKind::QuantizerConfig) <==> quality > 100
    &&& out matches Ok(bytes) ==> is_indexed_png(bytes, image.width, image.height)
    &&& out matches Err(e) ==> e.0 == ErrorKind::QuantizerConfig || e.0
        == ErrorKind::QuantizerImage || e.0 == ErrorKind::Quantize || e.0 == ErrorKind::Remap || e.0
        == ErrorKind::EmptyPalette || e.0 == ErrorKind::Png
}

/// Encodes an image as a palette-quantized PNG: converted to 8-bit RGBA,
/// quantized within [`quantizer_range`], and written as an 8-bit indexed
/// image whose palette holds the RGB of the quantizer's colours.
pub fn encode_png(img: &DecodedImage, quality: u8) -> (r: Result<Vec<u8>, EncodeError>)
    ensures
        png_allowed(img@, quality, outcome_of(r)),
{
    let width = img.width();
    let height = img.height();
    let rgba = to_rgba8(img.as_dynamic());
    let range = quantizer_range(quality);
    let quantized = quantize_rgba(&rgba, width, height, range.0, range.1);
    let ghost palette = if quantized is Ok {
        quantized->Ok_0.palette@
    } else {
        Seq::<u8>::empty()
    };
    let r = write_quantized(width, height, quantized);
    proof {
        if r is Ok {
            let bytes = r->Ok_0@;
            assert(starts_indexed_png(bytes, width, height, palette_rgb(palette)));
            assert(palette_rgb(palette).len() == 3 * (palette.len() / 4));
            assert(be32(bytes, 33) == palette_rgb(palette).len());
        }
    }
    r
}

// ------------------------------------------------------------- generic

/// An ASCII capital letter as its small letter; any other character as it
/// is.
pub open spec fn ascii_lower(c: char) -> char {
    if 'A' <= c && c <= 'Z' {
        ((c as u8) + 32) as char
    } else {
        c
    }
}

/// A text with its ASCII capital letters made small.
pub open spec fn lowered(text: Seq<char>) -> Seq<char> {
    text.map_values(|c: char| ascii_lower(c))
}

/// Whether an extension names a format of the generic encoder. Capital and
/// small ASCII letters count as the same.
pub open spec fn names_format(extension: Seq<char>) -> bool {
    let e = lowered(extension);
    ||| e == "avif"@
    ||| e == "jpg"@
    ||| e == "jpeg"@
    ||| e == "jfif"@
    ||| e == "png"@
    ||| e == "apng"@
    ||| e == "gif"@
    ||| e == "webp"@
    ||| e == "tif"@
    ||| e == "tiff"@
    ||| e == "tga"@
    ||| e == "dds"@
    ||| e == "bmp"@
    ||| e == "ico"@
    ||| e == "hdr"@
    ||| e == "exr"@
    ||| e == "pbm"@
    ||| e == "pam"@
    ||| e == "ppm"@
    ||| e == "pgm"@
    ||| e == "pnm"@
    ||| e == "ff"@
    ||| e == "qoi"@
}

/// `image::ImageFormat::from_extension`, then `DynamicImage::write_to` with
/// the format found. `from_extension` makes ASCII capitals small and knows
/// exactly the extensions of [`names_format`]; `Err(None)` says that it
/// found no format. Which bytes come out is not said: for some formats they
/// depend on the machine. `write_to` hands all bytes of the image to the
/// encoder, which panics where there are more or fewer than the dimensions
/// ask for; a well-formed image rules that out.
#[verifier::external_body]
fn generic_encode(pixels: &image::DynamicImage, extension: &str) -> (raw: Result<
    Vec<u8>,
    Option<String>,
>)
    requires
        raster_of(*pixels).well_formed(),
    ensures
        raw matches Err(None) <==> !names_format(extension@),
{
    match image::ImageFormat::from_extension(extension) {
        Some(format) => {
            let mut out = std::io::Cursor::new(Vec::new());
            match pixels.write_to(&mut out, format) {
                Ok(()) => Ok(out.into_inner()),
                Err(e) => Err(Some(e.to_string())),
            }
        },
        None => Err(None),
    }
}

/// What the generic encoder's result becomes: an unknown extension is
/// reported with the extension, a failure with the encoder's words.
pub open spec fn generic_outcome(
    extension: Seq<char>,
    raw: Result<Seq<u8>, Option<Seq<char>>>,
) -> Outcome {
    match raw {
        Ok(bytes) => Ok(bytes),
        Err(Some(msg)) => Err((ErrorKind::Generic, msg)),
        Err(None) => Err((ErrorKind::UnknownFormat, extension)),
    }
}

/// Reports the generic encoder's result; see [`generic_outcome`].
pub fn report_generic(extension: &str, raw: Result<Vec<u8>, Option<String>>) -> (r: Result<
    Vec<u8>,
    EncodeError,
>)
    ensures
        outcome_of(r) == generic_outcome(extension@, webp_view(raw)),
{
    match raw {
        Ok(bytes) => Ok(bytes),
        Err(Some(detail)) => Err(EncodeError { kind: ErrorKind::Generic, detail }),
        Err(None) => Err(
            EncodeError { kind: ErrorKind::UnknownFormat, detail: String::from_str(extension) },
        ),
    }
}

/// What may come of the generic encoder: an extension that names none of
/// its formats is reported as unknown, with the extension; for one that
/// names a format, the encoder for that format decides, and a failure is
/// reported in its words.
pub open spec fn generic_allowed(extension: Seq<char>, out: Outcome) -> bool {
    if names_format(extension) {
        out is Ok || (out is Err && out->Err_0.0 == ErrorKind::Generic)
    } else {
        out == Err::<Seq<u8>, _>((ErrorKind::UnknownFormat, extension))
    }
}

/// Encodes an image in the format that `extension` names, with that
/// format's default settings. An extension that names no format is
/// refused; see [`generic_allowed`].
pub fn encode_generic(img: &DecodedImage, extension: &str) -> (r: Result<Vec<u8>, EncodeError>)
    ensures
        generic_allowed(extension@, outcome_of(r)),
{
    report_generic(extension, generic_encode(img.as_dynamic(), extension))
}

// ------------------------------------------------------------ dispatch

/// What may come of encoding an image in the tagged format at a quality.
/// JPEG and WebP give exactly what their encoder computes; for the other
/// formats the encoder decides within what is stated of it.
pub open spec fn encoding_allowed(image: Raster, tag: Seq<char>, quality: u8, out: Outcome) -> bool {
    match format_of_tag(tag) {
        OutputFormat::Jpeg => out == filed(jpeg_encoding(image, quality), ErrorKind::Jpeg),
        OutputFormat::WebP => out == webp_result(image, quality),
        OutputFormat::Avif => avif_allowed(quality, out),
        OutputFormat::Png => png_allowed(image, quality, out),
        OutputFormat::Other => generic_allowed(tag, out),
    }
}

/// Encodes an image in the format that `tag` selects, at the given
/// quality.
pub fn encode(img: &DecodedImage, tag: &str, quality: u8) -> (r: Result<Vec<u8>, EncodeError>)
    ensures
        encoding_allowed(img@, tag@, quality, outcome_of(r)),
{
    match get_image_format(tag) {
        OutputFormat::Jpeg => encode_jpeg(img, quality),
        OutputFormat::WebP => encode_webp(img, quality),
        OutputFormat::Avif => encode_avif(img, quality),
        OutputFormat::Png => encode_png(img, quality),
        OutputFormat::Other => encode_generic(img, tag),
    }
}

} // verus!
