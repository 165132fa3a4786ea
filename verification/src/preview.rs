//! The preview estimator: an approximate output size for an image, from
//! encoding a small proxy instead of the full-size result.

use crate::batch::CompressConfig;
use crate::codec::{encode, encoding_allowed, outcome_of, EncodeError, Outcome};
use crate::dimensions::{
    proxy_dimensions, proxy_size, scale_estimate, scaled_estimate, target_dimensions, target_size,
    PROXY_SIZE,
};
use crate::raster::{is_proxy_of, DecodedImage, Raster};
use vstd::prelude::*;

verus! {

/// The name of the signal that carries the estimates of a batch.
pub const EVENT_PREVIEW: &'static str = "preview-done";

/// The estimate for one input file.
#[derive(Debug)]
pub struct PreviewResult {
    /// The input path.
    pub path: String,
    /// The size of the input file on disk, in bytes.
    pub original_size: u64,
    /// The estimated size of the output, in bytes.
    pub preview_size: u64,
}

/// The estimate that an encoded proxy gives: its length scaled from the
/// proxy's area to the target's, or nothing if encoding failed.
pub open spec fn estimate_of(encoded: Outcome, target: (int, int), proxy: (int, int)) -> Option<
    int,
> {
    match encoded {
        Ok(bytes) => Some(scaled_estimate(bytes.len() as int, target, proxy)),
        Err(_) => None,
    }
}

/// An estimate as a number without bound.
pub open spec fn unbounded(estimate: Option<u64>) -> Option<int> {
    match estimate {
        Some(e) => Some(e as int),
        None => None,
    }
}

/// Turns an encoded proxy into an estimate; see [`estimate_of`].
pub fn estimate_from(
    encoded: &Result<Vec<u8>, EncodeError>,
    target: (u32, u32),
    proxy: (u32, u32),
) -> (estimate: Option<u64>)
    ensures
        unbounded(estimate) == estimate_of(
            outcome_of(*encoded),
            (target.0 as int, target.1 as int),
            (proxy.0 as int, proxy.1 as int),
        ),
{
    match encoded {
        Ok(bytes) => Some(scale_estimate(bytes.len() as u64, target, proxy)),
        Err(_) => None,
    }
}

/// What an estimate for an image may be: the proxy of the image is encoded
/// in the configured format at the configured quality, whatever the tag,
/// and what comes out decides: its length, scaled to the target area, or
/// nothing after a failure.
pub open spec fn estimate_allowed(
    source: Raster,
    tag: Seq<char>,
    quality: u8,
    max_w: Option<u32>,
    max_h: Option<u32>,
    estimate: Option<u64>,
) -> bool {
    exists|proxy: Raster, out: Outcome|
        is_proxy_of(proxy, source, max_w, max_h) && #[trigger] encoding_allowed(
            proxy,
            tag,
            quality,
            out,
        ) && unbounded(estimate) == estimate_of(
            out,
            target_size(source.width as int, source.height as int, max_w, max_h),
            proxy_size(source.width as int, source.height as int, max_w, max_h),
        )
}

/// Estimates the size of the output for an image without encoding it at
/// full size; see [`estimate_allowed`]. Nothing is written anywhere.
pub fn estimate_size(
    img: &DecodedImage,
    tag: &str,
    quality: u8,
    max_width: Option<u32>,
    max_height: Option<u32>,
) -> (estimate: Option<u64>)
    ensures
        estimate_allowed(img@, tag@, quality, max_width, max_height, estimate),
{
    let w = img.width();
    let h = img.height();
    let target = target_dimensions(w, h, max_width, max_height);
    let size = proxy_dimensions(w, h, max_width, max_height);
    let small = img.proxy(max_width, max_height);
    let ghost proxy = if small is Some {
        small->Some_0@
    } else {
        img@
    };
    let encoded = match &small {
        Some(p) => encode(p, tag, quality),
        None => encode(img, tag, quality),
    };
    let estimate = estimate_from(&encoded, target, size);
    proof {
        assert(encoding_allowed(proxy, tag@, quality, outcome_of(encoded)));
    }
    estimate
}

/// The preview entry for one input file: nothing where the file's size
/// could not be read, the file could not be decoded, or no estimate could
/// be made; else the path, the size on disk and the estimate.
pub fn preview_item(
    path: &str,
    original_size: Option<u64>,
    image: Option<&DecodedImage>,
    config: &CompressConfig,
) -> (entry: Option<PreviewResult>)
    ensures
        match (original_size, image) {
            (Some(size), Some(img)) => estimate_allowed(
                img@,
                config.format@,
                config.quality,
                config.max_width,
                config.max_height,
                match entry {
                    Some(p) => Some(p.preview_size),
                    None => None,
                },
            ) && (entry matches Some(p) ==> p.path@ == path@ && p.original_size == size),
            _ => entry is None,
        },
{
    let Some(size) = original_size else {
        return None;
    };
    let Some(img) = image else {
        return None;
    };
    match estimate_size(
        img,
        config.format.as_str(),
        config.quality,
        config.max_width,
        config.max_height,
    ) {
        Some(estimate) => Some(
            PreviewResult {
                path: String::from_str(path),
                original_size: size,
                preview_size: estimate,
            },
        ),
        None => None,
    }
}

/// Where the target is no wider than [`PROXY_SIZE`], the estimate is the
/// length of the encoded proxy itself: the area ratio is one.
pub proof fn lemma_small_target_is_measured_directly(
    measured: int,
    w: int,
    h: int,
    max_w: Option<u32>,
    max_h: Option<u32>,
)
    requires
        target_size(w, h, max_w, max_h).0 <= PROXY_SIZE,
    ensures
        proxy_size(w, h, max_w, max_h) == target_size(w, h, max_w, max_h),
        scaled_estimate(
            measured,
            target_size(w, h, max_w, max_h),
            proxy_size(w, h, max_w, max_h),
        ) == measured,
{
}

} // verus!
