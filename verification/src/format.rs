//! Output formats and the tags that select them.

use crate::text::str_eq;
use vstd::prelude::*;

verus! {

/// The encoder that a format tag selects.
#[derive(Clone, Copy, Debug, PartialEq, Eq, Structural)]
pub enum OutputFormat {
    /// Lossy JPEG at the configured quality.
    Jpeg,
    /// Palette-quantized, indexed PNG.
    Png,
    /// Lossy WebP at the configured quality.
    WebP,
    /// AVIF at the configured quality and a fixed speed.
    Avif,
    /// Any other tag: the format is taken from the tag read as a file
    /// extension, without tuning.
    Other,
}

/// The format that a tag selects: `jpg` and `jpeg` select JPEG, `png`,
/// `webp` and `avif` their own format, anything else the generic path.
pub open spec fn format_of_tag(tag: Seq<char>) -> OutputFormat {
    if tag == "jpg"@ || tag == "jpeg"@ {
        OutputFormat::Jpeg
    } else if tag == "png"@ {
        OutputFormat::Png
    } else if tag == "webp"@ {
        OutputFormat::WebP
    } else if tag == "avif"@ {
        OutputFormat::Avif
    } else {
        OutputFormat::Other
    }
}

/// The file extension that output in the tagged format carries: the tag
/// itself, with `jpeg` shortened to `jpg`.
pub open spec fn extension_of_tag(tag: Seq<char>) -> Seq<char> {
    if tag == "jpeg"@ {
        "jpg"@
    } else {
        tag
    }
}

/// Reads a format tag; see [`format_of_tag`].
pub fn get_image_format(fmt: &str) -> (format: OutputFormat)
    ensures
        format == format_of_tag(fmt@),
{
    if str_eq(fmt, "jpg") || str_eq(fmt, "jpeg") {
        OutputFormat::Jpeg
    } else if str_eq(fmt, "png") {
        OutputFormat::Png
    } else if str_eq(fmt, "webp") {
        OutputFormat::WebP
    } else if str_eq(fmt, "avif") {
        OutputFormat::Avif
    } else {
        OutputFormat::Other
    }
}

/// The extension for a format tag; see [`extension_of_tag`].
pub fn output_extension(tag: &str) -> (ext: String)
    ensures
        ext@ == extension_of_tag(tag@),
{
    if str_eq(tag, "jpeg") {
        String::from_str("jpg")
    } else {
        String::from_str(tag)
    }
}

} // verus!
