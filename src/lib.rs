//! An encoder for 8-bit indexed-colour bitmaps in the legacy core-header layout.

pub mod le;
pub mod bmp;
pub mod laws;
