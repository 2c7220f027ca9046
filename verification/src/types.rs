//! Plain descriptive types shared by the conversion paths.

use vstd::prelude::*;

use crate::text::str_eq;

verus! {

/// Image dimensions in pixels.
#[derive(Debug, Clone, Copy, PartialEq, Eq, Structural)]
pub struct Dimensions {
    pub rows: u16,
    pub cols: u16,
}

impl Dimensions {
    pub fn new(rows: u16, cols: u16) -> (r: Self)
        ensures
            r.rows == rows,
            r.cols == cols,
    {
        Dimensions { rows, cols }
    }

    /// Number of pixels in one frame.
    pub fn pixel_count(&self) -> (r: usize)
        ensures
            r == self.rows * self.cols,
            r <= 0xfffe_0001,
    {
        let rows = self.rows as usize;
        let cols = self.cols as usize;
        proof {
            assert(rows * cols <= 65535 * 65535) by (nonlinear_arith)
                requires
                    rows <= 65535,
                    cols <= 65535,
            ;
        }
        rows * cols
    }

    /// Both sides must be positive for a displayable image.
    pub fn is_valid(&self) -> (r: bool)
        ensures
            r == (self.rows > 0 && self.cols > 0),
    {
        self.rows > 0 && self.cols > 0
    }
}

/// Bit depth of the stored samples.
#[derive(Debug, Clone, Copy, PartialEq, Eq, Structural)]
pub struct BitDepth {
    pub allocated: u16,
    pub stored: u16,
}

impl BitDepth {
    pub fn new(allocated: u16, stored: u16) -> (r: Self)
        ensures
            r.allocated == allocated,
            r.stored == stored,
    {
        BitDepth { allocated, stored }
    }

    /// Width in bytes of one stored sample.
    pub fn bytes_per_pixel(&self) -> (r: u16)
        ensures
            r == self.allocated / 8,
    {
        self.allocated / 8
    }

    /// The allocation is one of the supported byte-aligned sizes and no
    /// more bits are stored than allocated.
    pub fn is_valid(&self) -> (r: bool)
        ensures
            r == (self.stored <= self.allocated && (self.allocated == 8 || self.allocated == 16
                || self.allocated == 32)),
    {
        self.stored <= self.allocated && (self.allocated == 8 || self.allocated == 16
            || self.allocated == 32)
    }
}

/// Affine transform mapping stored samples to display-intended values.
///
/// The slope and the intercept are held in thousandths, so a slope of one is
/// `1000`.  The grayscale path applies the transform as an exact integer
/// affine map; the normalisation that follows divides the common denominator
/// back out, so the produced gray levels agree with the real-valued
/// transform.
#[derive(Debug, Clone, Copy, PartialEq, Eq, Structural)]
pub struct RescaleParams {
    pub slope_milli: i32,
    pub intercept_milli: i32,
}

impl RescaleParams {
    /// The rescaled value of a stored sample, in thousandths.
    pub open spec fn spec_rescaled(self, v: int) -> int {
        v * self.slope_milli + self.intercept_milli
    }

    pub fn new(slope_milli: i32, intercept_milli: i32) -> (r: Self)
        ensures
            r.slope_milli == slope_milli,
            r.intercept_milli == intercept_milli,
    {
        RescaleParams { slope_milli, intercept_milli }
    }

    /// Apply the transform to one sample.  The result always fits well
    /// inside 48 bits, which keeps the normalisation arithmetic exact.
    pub fn apply(&self, pixel: u16) -> (r: i64)
        ensures
            r == self.spec_rescaled(pixel as int),
            -0x8001_0000_0000 <= r <= 0x8001_0000_0000,
    {
        let v = pixel as i64;
        let s = self.slope_milli as i64;
        let c = self.intercept_milli as i64;
        proof {
            assert(-0x8000_0000_0000i64 <= v * s <= 0x8000_0000_0000i64) by (nonlinear_arith)
                requires
                    0 <= v <= 65535,
                    -0x8000_0000 <= s <= 0x8000_0000,
            ;
        }
        v * s + c
    }
}

impl Default for RescaleParams {
    /// Identity transform: slope one, intercept zero.
    fn default() -> (r: Self)
        ensures
            r.slope_milli == 1000,
            r.intercept_milli == 0,
    {
        RescaleParams { slope_milli: 1000, intercept_milli: 0 }
    }
}

/// DICOM transfer syntax (UID and registry name).
#[derive(Debug, Clone, PartialEq, Eq)]
pub struct TransferSyntax {
    pub uid: String,
    pub name: String,
}

/// UID of the retired big-endian transfer syntax.
pub open spec fn spec_big_endian_uid() -> Seq<char> {
    "1.2.840.10008.1.2.2"@
}

impl TransferSyntax {
    pub fn new(uid: String, name: String) -> (r: Self)
        ensures
            r.uid@ == uid@,
            r.name@ == name@,
    {
        TransferSyntax { uid, name }
    }

    /// Whether samples are stored big-endian on the wire.
    pub fn is_big_endian(&self) -> (r: bool)
        ensures
            r == (self.uid@ == spec_big_endian_uid()),
    {
        str_eq(self.uid.as_str(), "1.2.840.10008.1.2.2")
    }
}

/// SOP class (UID and dictionary name).
#[derive(Debug, Clone, PartialEq, Eq)]
pub struct SOPClass {
    pub uid: String,
    pub name: String,
}

impl SOPClass {
    pub fn new(uid: String, name: String) -> (r: Self)
        ensures
            r.uid@ == uid@,
            r.name@ == name@,
    {
        SOPClass { uid, name }
    }
}

/// Patient identification tags, kept only for display.
#[derive(Debug, Clone, PartialEq, Eq)]
pub struct PatientInfo {
    pub name: Option<String>,
    pub id: Option<String>,
    pub birth_date: Option<String>,
}

impl PatientInfo {
    pub fn new() -> (r: Self)
        ensures
            r.name is None,
            r.id is None,
            r.birth_date is None,
    {
        PatientInfo { name: None, id: None, birth_date: None }
    }

    pub fn has_info(&self) -> (r: bool)
        ensures
            r == (self.name is Some || self.id is Some || self.birth_date is Some),
    {
        self.name.is_some() || self.id.is_some() || self.birth_date.is_some()
    }
}

impl Default for PatientInfo {
    fn default() -> (r: Self)
        ensures
            r.name is None,
            r.id is None,
            r.birth_date is None,
    {
        PatientInfo::new()
    }
}

/// Study-level tags, kept only for display.
#[derive(Debug, Clone, PartialEq, Eq)]
pub struct StudyInfo {
    pub accession_number: Option<String>,
    pub date: Option<String>,
    pub description: Option<String>,
    pub modality: Option<String>,
}

impl StudyInfo {
    pub fn new() -> (r: Self)
        ensures
            r.accession_number is None,
            r.date is None,
            r.description is None,
            r.modality is None,
    {
        StudyInfo { accession_number: None, date: None, description: None, modality: None }
    }

    pub fn has_info(&self) -> (r: bool)
        ensures
            r == (self.accession_number is Some || self.date is Some || self.description is Some
                || self.modality is Some),
    {
        self.accession_number.is_some() || self.date.is_some() || self.description.is_some()
            || self.modality.is_some()
    }
}

impl Default for StudyInfo {
    fn default() -> (r: Self)
        ensures
            r.accession_number is None,
            r.date is None,
            r.description is None,
            r.modality is None,
    {
        StudyInfo::new()
    }
}

} // verus!
