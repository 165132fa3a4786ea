//! The metadata reader: what is shown of an input file before it is
//! processed.

use vstd::prelude::*;

verus! {

/// The dimensions and the size on disk of one input file.
#[derive(Debug)]
pub struct ImageMetadata {
    /// The input path.
    pub path: String,
    /// Width in pixels.
    pub width: u32,
    /// Height in pixels.
    pub height: u32,
    /// Size of the file on disk, in bytes.
    pub size: u64,
}

/// The entry for one path: its dimensions and size where both could be
/// read, nothing where either could not.
pub fn metadata_entry(path: &str, dimensions: Option<(u32, u32)>, size: Option<u64>) -> (entry:
    Option<ImageMetadata>)
    ensures
        entry is Some <==> dimensions is Some && size is Some,
        entry matches Some(m) ==> {
            &&& m.path@ == path@
            &&& dimensions == Some((m.width, m.height))
            &&& size == Some(m.size)
        },
{
    match (dimensions, size) {
        (Some((width, height)), Some(size)) => Some(
            ImageMetadata { path: String::from_str(path), width, height, size },
        ),
        _ => None,
    }
}

} // verus!
