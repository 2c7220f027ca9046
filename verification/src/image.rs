//! Conversion of tagged pixel buffers to interleaved 8-bit RGB rasters.

use vstd::prelude::*;

pub mod grayscale;
pub mod normalization;
pub mod rgb;
pub mod ycbcr;

use crate::error::ConvertError;
use crate::metadata::DicomMetadata;

verus! {

/// Copy the first `n` bytes of a buffer.
pub(crate) fn take_prefix(d: &Vec<u8>, n: usize) -> (r: Vec<u8>)
    requires
        n <= d@.len(),
    ensures
        r@ == d@.take(n as int),
{
    let mut out: Vec<u8> = Vec::new();
    let mut i: usize = 0;
    while i < n
        invariant
            i <= n,
            n <= d@.len(),
            out@.len() == i,
            forall|j: int| 0 <= j < i ==> out@[j] == d@[j],
        decreases n - i,
    {
        out.push(d[i]);
        i += 1;
    }
    proof {
        assert(out@ =~= d@.take(n as int));
    }
    out
}

/// A finished raster: an interleaved 8-bit RGB byte buffer of length
/// `width * height * 3`.
#[derive(Debug, Clone, PartialEq, Eq)]
pub struct RgbImage {
    pub width: u32,
    pub height: u32,
    pub data: Vec<u8>,
}

impl RgbImage {
    /// The raster's byte count matches its declared size.
    pub open spec fn wf(&self) -> bool {
        self.data@.len() == self.width * self.height * 3
    }

    pub fn width(&self) -> (r: u32)
        ensures
            r == self.width,
    {
        self.width
    }

    pub fn height(&self) -> (r: u32)
        ensures
            r == self.height,
    {
        self.height
    }

    pub fn data(&self) -> (r: &Vec<u8>)
        ensures
            r@ == self.data@,
    {
        &self.data
    }
}

/// A buffer the extractor already resolved to displayable RGB is only cut
/// down to its first frame.
pub open spec fn spec_rgb_passthrough(d: Seq<u8>, pc: int) -> Result<Seq<u8>, ConvertError> {
    if d.len() < 3 * pc {
        Err(ConvertError::InvalidBufferLength)
    } else {
        Ok(d.take(3 * pc))
    }
}

/// The whole outcome of conversion: the passthrough for buffers already
/// tagged RGB, otherwise the path the photometric interpretation picks.
pub open spec fn spec_convert_to_image(m: DicomMetadata) -> Result<Seq<u8>, ConvertError> {
    if m.pixel_data_format is Rgb {
        spec_rgb_passthrough(m.spec_pixel_bytes(), m.dimensions.rows * m.dimensions.cols)
    } else {
        match m.photometric_interpretation {
            crate::photometric::PhotometricInterpretation::Monochrome1
            | crate::photometric::PhotometricInterpretation::Monochrome2 => {
                grayscale::spec_convert_grayscale(m)
            },
            crate::photometric::PhotometricInterpretation::Rgb => rgb::spec_convert_rgb(m),
            crate::photometric::PhotometricInterpretation::YbrFull
            | crate::photometric::PhotometricInterpretation::YbrFull422 => {
                ycbcr::spec_convert_ycbcr(m)
            },
            _ => Err(ConvertError::UnsupportedPhotometricInterpretation),
        }
    }
}

/// Convert pixel data to a displayable raster.
///
/// A buffer the extractor already resolved to RGB goes straight through,
/// cut down to its first frame.  Otherwise the photometric interpretation
/// dispatches to exactly one of the grayscale, RGB and YCbCr paths; palette
/// colour and unrecognised interpretations are refused rather than rendered
/// wrongly.
pub fn convert_to_image(m: &DicomMetadata) -> (r: Result<RgbImage, ConvertError>)
    ensures
        match r {
            Ok(img) => {
                &&& spec_convert_to_image(*m) == Ok::<Seq<u8>, ConvertError>(img.data@)
                &&& img.width == m.dimensions.cols
                &&& img.height == m.dimensions.rows
                &&& img.wf()
            },
            Err(e) => spec_convert_to_image(*m) == Err::<Seq<u8>, ConvertError>(e),
        },
{
    if m.is_already_rgb() {
        let d = m.pixel_data();
        let pc = m.dimensions.pixel_count();
        proof {
            assert(3 * (m.dimensions.rows as int * m.dimensions.cols as int) == m.dimensions.cols
                as int * m.dimensions.rows as int * 3) by (nonlinear_arith);
        }
        if (d.len() as u64) < 3 * (pc as u64) {
            return Err(ConvertError::InvalidBufferLength);
        }
        let frame = take_prefix(d, 3 * pc);
        return Ok(RgbImage { width: m.cols() as u32, height: m.rows() as u32, data: frame });
    }
    match &m.photometric_interpretation {
        crate::photometric::PhotometricInterpretation::Monochrome1
        | crate::photometric::PhotometricInterpretation::Monochrome2 => {
            grayscale::convert_grayscale(m)
        },
        crate::photometric::PhotometricInterpretation::Rgb => rgb::convert_rgb(m),
        crate::photometric::PhotometricInterpretation::YbrFull
        | crate::photometric::PhotometricInterpretation::YbrFull422 => ycbcr::convert_ycbcr(m),
        _ => Err(ConvertError::UnsupportedPhotometricInterpretation),
    }
}

} // verus!
