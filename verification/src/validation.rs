//! Cross-checks over the descriptive fields, run before any conversion.

use vstd::prelude::*;

use crate::error::ConvertError;
use crate::photometric::PhotometricInterpretation;

verus! {

/// The interpretation and the sample count agree: one sample per pixel for
/// grayscale and palette data, three for RGB and YCbCr.
pub open spec fn spec_samples_consistent(
    pi: PhotometricInterpretation,
    samples_per_pixel: u16,
) -> bool {
    ||| (samples_per_pixel == 1 && (pi is Monochrome1 || pi is Monochrome2 || pi is Palette))
    ||| (samples_per_pixel == 3 && (pi is Rgb || pi is YbrFull || pi is YbrFull422))
}

/// A planar configuration is only meaningful for RGB or YCbCr data.
pub open spec fn spec_planar_consistent(
    planar_configuration: Option<u16>,
    pi: PhotometricInterpretation,
) -> bool {
    planar_configuration is Some ==> (pi is Rgb || pi is YbrFull || pi is YbrFull422)
}

pub fn validate_photometric_samples(
    photometric_interpretation: &PhotometricInterpretation,
    samples_per_pixel: u16,
) -> (r: Result<(), ConvertError>)
    ensures
        r == if spec_samples_consistent(*photometric_interpretation, samples_per_pixel) {
            Ok::<(), ConvertError>(())
        } else {
            Err::<(), ConvertError>(ConvertError::InconsistentMetadata)
        },
{
    let one_sample = photometric_interpretation.is_grayscale() || matches!(
        photometric_interpretation,
        PhotometricInterpretation::Palette,
    );
    let three_samples = photometric_interpretation.is_rgb()
        || photometric_interpretation.is_ycbcr();
    if (samples_per_pixel == 1 && one_sample) || (samples_per_pixel == 3 && three_samples) {
        Ok(())
    } else {
        Err(ConvertError::InconsistentMetadata)
    }
}

pub fn validate_planar_configuration(
    planar_configuration: Option<u16>,
    photometric_interpretation: &PhotometricInterpretation,
) -> (r: Result<(), ConvertError>)
    ensures
        r == if spec_planar_consistent(planar_configuration, *photometric_interpretation) {
            Ok::<(), ConvertError>(())
        } else {
            Err::<(), ConvertError>(ConvertError::InconsistentMetadata)
        },
{
    if planar_configuration.is_some() && !photometric_interpretation.is_rgb()
        && !photometric_interpretation.is_ycbcr() {
        Err(ConvertError::InconsistentMetadata)
    } else {
        Ok(())
    }
}

pub fn validate_bits_allocated(bits_allocated: u16) -> (r: Result<(), ConvertError>)
    ensures
        r == if bits_allocated == 8 || bits_allocated == 16 || bits_allocated == 32 {
            Ok::<(), ConvertError>(())
        } else {
            Err::<(), ConvertError>(ConvertError::InconsistentMetadata)
        },
{
    if matches!(bits_allocated, 8 | 16 | 32) {
        Ok(())
    } else {
        Err(ConvertError::InconsistentMetadata)
    }
}

/// Run every rule; the first violated one aborts with
/// [`ConvertError::InconsistentMetadata`].
pub fn validate_metadata(
    photometric_interpretation: &PhotometricInterpretation,
    samples_per_pixel: u16,
    planar_configuration: Option<u16>,
    bits_allocated: u16,
) -> (r: Result<(), ConvertError>)
    ensures
        r == if spec_samples_consistent(*photometric_interpretation, samples_per_pixel)
            && spec_planar_consistent(planar_configuration, *photometric_interpretation) && (
        bits_allocated == 8 || bits_allocated == 16 || bits_allocated == 32) {
            Ok::<(), ConvertError>(())
        } else {
            Err::<(), ConvertError>(ConvertError::InconsistentMetadata)
        },
{
    match validate_photometric_samples(photometric_interpretation, samples_per_pixel) {
        Ok(()) => {},
        Err(e) => {
            return Err(e);
        },
    }
    match validate_planar_configuration(planar_configuration, photometric_interpretation) {
        Ok(()) => {},
        Err(e) => {
            return Err(e);
        },
    }
    validate_bits_allocated(bits_allocated)
}

} // verus!
