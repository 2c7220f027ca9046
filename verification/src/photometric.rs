//! Photometric interpretation (colour space) of the pixel data.

use vstd::prelude::*;

use crate::text::{spec_trimmed, str_eq, str_trim};

verus! {

/// How sample values map to visual colour.
#[derive(Debug, Clone, PartialEq, Eq)]
pub enum PhotometricInterpretation {
    /// Grayscale where the minimum value is white.
    Monochrome1,
    /// Grayscale where the minimum value is black.
    Monochrome2,
    /// RGB colour space, interleaved or planar.
    Rgb,
    /// Full-range YCbCr at full resolution.
    YbrFull,
    /// Full-range YCbCr with 4:2:2 chroma subsampling.
    YbrFull422,
    /// Palette colour, which needs a lookup table.
    Palette,
    /// Any interpretation this crate does not recognise.
    Unknown(String),
}

impl PhotometricInterpretation {
    /// Parse the DICOM code string.  Surrounding whitespace padding is
    /// removed first; anything unrecognised is kept, trimmed, verbatim.
    pub fn parse(s: &str) -> (r: Self)
        ensures
            spec_trimmed(s@) == "MONOCHROME1"@ ==> r == PhotometricInterpretation::Monochrome1,
            spec_trimmed(s@) == "MONOCHROME2"@ ==> r == PhotometricInterpretation::Monochrome2,
            spec_trimmed(s@) == "RGB"@ ==> r == PhotometricInterpretation::Rgb,
            spec_trimmed(s@) == "YBR_FULL"@ ==> r == PhotometricInterpretation::YbrFull,
            spec_trimmed(s@) == "YBR_FULL_422"@ ==> r == PhotometricInterpretation::YbrFull422,
            spec_trimmed(s@) == "PALETTE COLOR"@ ==> r == PhotometricInterpretation::Palette,
            (spec_trimmed(s@) != "MONOCHROME1"@ && spec_trimmed(s@) != "MONOCHROME2"@
                && spec_trimmed(s@) != "RGB"@ && spec_trimmed(s@) != "YBR_FULL"@ && spec_trimmed(
                s@,
            ) != "YBR_FULL_422"@ && spec_trimmed(s@) != "PALETTE COLOR"@) ==> (r matches
                PhotometricInterpretation::Unknown(u) && u@ == spec_trimmed(s@)),
    {
        proof {
            reveal_strlit("MONOCHROME1");
            reveal_strlit("MONOCHROME2");
            reveal_strlit("RGB");
            reveal_strlit("YBR_FULL");
            reveal_strlit("YBR_FULL_422");
            reveal_strlit("PALETTE COLOR");
            // The lengths separate every pair of codes but the two monochrome
            // ones, which differ in their last character.
            assert("MONOCHROME1"@.len() == 11 && "MONOCHROME2"@.len() == 11);
            assert("RGB"@.len() == 3 && "YBR_FULL"@.len() == 8);
            assert("YBR_FULL_422"@.len() == 12 && "PALETTE COLOR"@.len() == 13);
            assert("MONOCHROME1"@[10] == '1' && "MONOCHROME2"@[10] == '2');
        }
        let t = str_trim(s);
        if str_eq(t, "MONOCHROME1") {
            PhotometricInterpretation::Monochrome1
        } else if str_eq(t, "MONOCHROME2") {
            PhotometricInterpretation::Monochrome2
        } else if str_eq(t, "RGB") {
            PhotometricInterpretation::Rgb
        } else if str_eq(t, "YBR_FULL") {
            PhotometricInterpretation::YbrFull
        } else if str_eq(t, "YBR_FULL_422") {
            PhotometricInterpretation::YbrFull422
        } else if str_eq(t, "PALETTE COLOR") {
            PhotometricInterpretation::Palette
        } else {
            PhotometricInterpretation::Unknown(t.to_owned())
        }
    }

    /// Whether this is one of the two grayscale interpretations.
    pub fn is_grayscale(&self) -> (r: bool)
        ensures
            r == (self is Monochrome1 || self is Monochrome2),
    {
        matches!(self, Self::Monochrome1 | Self::Monochrome2)
    }

    /// Whether this is the RGB interpretation.
    pub fn is_rgb(&self) -> (r: bool)
        ensures
            r == (self is Rgb),
    {
        matches!(self, Self::Rgb)
    }

    /// Whether this is one of the YCbCr interpretations.
    pub fn is_ycbcr(&self) -> (r: bool)
        ensures
            r == (self is YbrFull || self is YbrFull422),
    {
        matches!(self, Self::YbrFull | Self::YbrFull422)
    }

    /// Whether gray levels must be inverted for display.
    pub fn should_invert(&self) -> (r: bool)
        ensures
            r == (self is Monochrome1),
    {
        matches!(self, Self::Monochrome1)
    }
}

} // verus!
