//! Conversion of annotated DICOM pixel buffers into flat 8-bit RGB rasters.
//!
//! The crate models the pixel buffer, its descriptive metadata and the three
//! colour paths (grayscale, RGB, YCbCr); every conversion function carries a
//! contract that pins the produced bytes down exactly.

pub mod error;
pub mod image;
pub mod pixel_data;
pub mod metadata;
pub mod photometric;
pub mod text;
pub mod types;
pub mod validation;

