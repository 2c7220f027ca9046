//! Typed failures of the conversion pipeline.

use vstd::prelude::*;

verus! {

/// Why a conversion was aborted.  Every failure aborts the whole conversion;
/// no partial result is produced alongside one of these.
#[derive(Debug, Clone, PartialEq, Eq)]
pub enum ConvertError {
    /// The pixel-data field is absent or empty.
    MissingPixelData,
    /// The byte count of the buffer is inconsistent with the declared
    /// dimensions, bit depth or sample count.
    InvalidBufferLength,
    /// The named bit depth is outside the supported set of the chosen path.
    UnsupportedBitDepth(u16),
    /// Palette colour or an unrecognised interpretation reached the converter.
    UnsupportedPhotometricInterpretation,
    /// A planar-configuration value other than zero or one.
    UnsupportedPlanarConfiguration(u16),
    /// The descriptive fields contradict each other.
    InconsistentMetadata,
    /// The decompression collaborator failed; its message is carried along.
    DecodeFailure(String),
    /// The final byte count does not match `width * height * channels`.
    ImageBufferConstructionFailure,
}

} // verus!
