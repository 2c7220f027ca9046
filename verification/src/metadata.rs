//! The descriptive fields and the tagged pixel buffer of one image.

use vstd::prelude::*;

use crate::photometric::PhotometricInterpretation;
use crate::pixel_data::DecodedPixelData;
use crate::types::{
    spec_big_endian_uid, BitDepth, Dimensions, PatientInfo, RescaleParams, SOPClass, StudyInfo,
    TransferSyntax,
};

verus! {

/// Everything the conversion pipeline needs to know about one image.
///
/// Constructed once per file or frame, consumed by exactly one conversion
/// call, and discarded afterwards.
#[derive(Debug, Clone)]
pub struct DicomMetadata {
    pub dimensions: Dimensions,
    pub bit_depth: BitDepth,
    pub photometric_interpretation: PhotometricInterpretation,
    pub samples_per_pixel: u16,
    pub planar_configuration: Option<u16>,
    pub number_of_frames: u32,
    pub pixel_data_format: DecodedPixelData,
    pub rescale: RescaleParams,
    pub patient: PatientInfo,
    pub study: StudyInfo,
    pub sop_class: Option<SOPClass>,
    pub transfer_syntax: TransferSyntax,
}

impl DicomMetadata {
    /// The pixel bytes, whatever their tag.
    pub open spec fn spec_pixel_bytes(&self) -> Seq<u8> {
        self.pixel_data_format.spec_bytes()
    }

    pub fn rows(&self) -> (r: u16)
        ensures
            r == self.dimensions.rows,
    {
        self.dimensions.rows
    }

    pub fn cols(&self) -> (r: u16)
        ensures
            r == self.dimensions.cols,
    {
        self.dimensions.cols
    }

    pub fn bits_allocated(&self) -> (r: u16)
        ensures
            r == self.bit_depth.allocated,
    {
        self.bit_depth.allocated
    }

    pub fn bits_stored(&self) -> (r: u16)
        ensures
            r == self.bit_depth.stored,
    {
        self.bit_depth.stored
    }

    /// Whether the file's transfer syntax stores samples big-endian.
    pub fn is_big_endian(&self) -> (r: bool)
        ensures
            r == (self.transfer_syntax.uid@ == spec_big_endian_uid()),
    {
        self.transfer_syntax.is_big_endian()
    }

    /// The raw pixel bytes.
    pub fn pixel_data(&self) -> (r: &Vec<u8>)
        ensures
            r@ == self.spec_pixel_bytes(),
    {
        self.pixel_data_format.data()
    }

    /// Whether the buffer was already resolved to displayable RGB.
    pub fn is_already_rgb(&self) -> (r: bool)
        ensures
            r == (self.pixel_data_format is Rgb),
    {
        matches!(self.pixel_data_format, DecodedPixelData::Rgb(_))
    }

    pub fn patient_name(&self) -> (r: Option<&str>)
        ensures
            match r {
                Some(s) => self.patient.name matches Some(n) && s@ == n@,
                None => self.patient.name is None,
            },
    {
        match &self.patient.name {
            Some(s) => Some(s.as_str()),
            None => None,
        }
    }

    pub fn patient_id(&self) -> (r: Option<&str>)
        ensures
            match r {
                Some(s) => self.patient.id matches Some(n) && s@ == n@,
                None => self.patient.id is None,
            },
    {
        match &self.patient.id {
            Some(s) => Some(s.as_str()),
            None => None,
        }
    }

    pub fn patient_birth_date(&self) -> (r: Option<&str>)
        ensures
            match r {
                Some(s) => self.patient.birth_date matches Some(n) && s@ == n@,
                None => self.patient.birth_date is None,
            },
    {
        match &self.patient.birth_date {
            Some(s) => Some(s.as_str()),
            None => None,
        }
    }

    pub fn accession_number(&self) -> (r: Option<&str>)
        ensures
            match r {
                Some(s) => self.study.accession_number matches Some(n) && s@ == n@,
                None => self.study.accession_number is None,
            },
    {
        match &self.study.accession_number {
            Some(s) => Some(s.as_str()),
            None => None,
        }
    }

    pub fn study_date(&self) -> (r: Option<&str>)
        ensures
            match r {
                Some(s) => self.study.date matches Some(n) && s@ == n@,
                None => self.study.date is None,
            },
    {
        match &self.study.date {
            Some(s) => Some(s.as_str()),
            None => None,
        }
    }

    pub fn study_description(&self) -> (r: Option<&str>)
        ensures
            match r {
                Some(s) => self.study.description matches Some(n) && s@ == n@,
                None => self.study.description is None,
            },
    {
        match &self.study.description {
            Some(s) => Some(s.as_str()),
            None => None,
        }
    }

    pub fn modality(&self) -> (r: Option<&str>)
        ensures
            match r {
                Some(s) => self.study.modality matches Some(n) && s@ == n@,
                None => self.study.modality is None,
            },
    {
        match &self.study.modality {
            Some(s) => Some(s.as_str()),
            None => None,
        }
    }
}

} // verus!
