//! Import pipeline: supported formats, progress records, the planning of
//! the copy / rename / move phases and the XMP sidecars.

pub mod converter;
pub mod pipeline;
pub mod progress;
pub mod xmp;
