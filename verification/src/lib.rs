//! Batch image compression: format-specific encoding, resolution-aware
//! resizing, collision-safe output naming and cheap size estimates.
//!
//! The library never touches the file system. Callers decode files, probe
//! for existing names and write the encoded bytes; everything decided in
//! between is decided here.
//!
//! - [`dimensions`]: the size an image is written with under its caps, the
//!   size an estimate is measured at, and how a measured size scales.
//! - [`raster`]: decoded images and their resizing.
//! - [`format`]: format tags and file extensions.
//! - [`codec`]: one encoder per format.
//! - [`naming`]: output names and the search for one that is free.
//! - [`preview`]: size estimates from a small proxy.
//! - [`batch`]: the steps that one input file goes through.
//! - [`metadata`]: dimensions and size of an input file.
//! - [`text`]: decimal numbers and searching in text.

pub mod batch;
pub mod codec;
pub mod dimensions;
pub mod format;
pub mod metadata;
pub mod naming;
pub mod preview;
pub mod raster;
pub mod text;
