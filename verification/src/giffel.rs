//! The frame archive that the encoder reads its frames from, and the work on images that
//! goes into making one.

pub mod archive;
pub mod crop;
pub mod error;
pub mod image;
pub mod palettes_mediancut;
