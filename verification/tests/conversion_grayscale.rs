//! Tests of the grayscale conversion path.

use dcmv::error::ConvertError;
use dcmv::image::convert_to_image;
use dcmv::image::grayscale::convert_grayscale;
use dcmv::metadata::DicomMetadata;
use dcmv::photometric::PhotometricInterpretation;
use dcmv::pixel_data::DecodedPixelData;
use dcmv::types::{BitDepth, Dimensions, PatientInfo, RescaleParams, StudyInfo, TransferSyntax};

fn gray_meta(pi: &str, bits: u16, rows: u16, cols: u16, data: Vec<u8>) -> DicomMetadata {
    DicomMetadata {
        dimensions: Dimensions::new(rows, cols),
        bit_depth: BitDepth::new(bits, bits),
        photometric_interpretation: PhotometricInterpretation::parse(pi),
        samples_per_pixel: 1,
        planar_configuration: None,
        number_of_frames: 1,
        pixel_data_format: DecodedPixelData::Native(data),
        rescale: RescaleParams::new(1000, 0),
        patient: PatientInfo::new(),
        study: StudyInfo::new(),
        sop_class: None,
        transfer_syntax: TransferSyntax::new(
            String::from("1.2.840.10008.1.2.1"),
            String::from("Explicit VR Little Endian"),
        ),
    }
}

#[test]
fn test_convert_grayscale_dispatch() {
    let metadata = gray_meta("MONOCHROME2", 16, 64, 64, vec![0u8; 64 * 64 * 2]);
    let _ = convert_grayscale(&metadata);
}

#[test]
fn grayscale_8bit_output_shape_and_levels() {
    let m = gray_meta("MONOCHROME2", 8, 2, 2, vec![0, 255, 128, 64]);
    let img = convert_grayscale(&m).unwrap();
    assert_eq!(img.width(), 2);
    assert_eq!(img.height(), 2);
    // The full range is present, so the levels pass through unchanged.
    assert_eq!(
        img.data().as_slice(),
        &[0, 0, 0, 255, 255, 255, 128, 128, 128, 64, 64, 64]
    );
}

#[test]
fn grayscale_every_pixel_has_equal_channels() {
    let m = gray_meta("MONOCHROME2", 8, 3, 3, vec![9, 17, 250, 3, 77, 130, 130, 9, 254]);
    let img = convert_grayscale(&m).unwrap();
    assert_eq!(img.data().len(), 3 * 3 * 3);
    for k in 0..9 {
        let d = img.data();
        assert_eq!(d[3 * k], d[3 * k + 1]);
        assert_eq!(d[3 * k + 1], d[3 * k + 2]);
    }
}

#[test]
fn grayscale_normalization_is_monotonic() {
    let m = gray_meta("MONOCHROME2", 8, 1, 3, vec![10, 200, 100]);
    let img = convert_grayscale(&m).unwrap();
    let d = img.data();
    assert!(d[0] <= d[6]);
    assert!(d[6] <= d[3]);
}

#[test]
fn grayscale_inversion_complements_gray_levels() {
    let samples = vec![12, 200, 55, 99];
    let plain = convert_grayscale(&gray_meta("MONOCHROME2", 8, 2, 2, samples.clone())).unwrap();
    let inverted = convert_grayscale(&gray_meta("MONOCHROME1", 8, 2, 2, samples)).unwrap();
    for k in 0..plain.data().len() {
        assert_eq!(inverted.data()[k], 255 - plain.data()[k]);
    }
}

#[test]
fn grayscale_16bit_monochrome1_window() {
    // 2x2 samples 0, 4095, 2048, 4095 as little-endian pairs.
    let mut bytes = Vec::new();
    for v in [0u16, 4095, 2048, 4095] {
        bytes.push((v & 0xff) as u8);
        bytes.push((v >> 8) as u8);
    }
    let m = gray_meta("MONOCHROME1", 16, 2, 2, bytes);
    let img = convert_grayscale(&m).unwrap();
    // Auto-window: minimum 0, maximum 4095.  Truncated normalisation gives
    // 0, 255, 127, 255; inversion for white-is-minimum yields the levels
    // below, each replicated across the three channels.
    let expect = [255u8, 0, 128, 0];
    assert_eq!(img.data().len(), 12);
    for k in 0..4 {
        assert_eq!(img.data()[3 * k], expect[k]);
        assert_eq!(img.data()[3 * k + 1], expect[k]);
        assert_eq!(img.data()[3 * k + 2], expect[k]);
    }
}

#[test]
fn grayscale_16bit_odd_byte_count_is_rejected() {
    let m = gray_meta("MONOCHROME2", 16, 2, 2, vec![1, 2, 3, 4, 5]);
    assert_eq!(convert_grayscale(&m), Err(ConvertError::InvalidBufferLength));
    assert_eq!(convert_to_image(&m), Err(ConvertError::InvalidBufferLength));
}

#[test]
fn grayscale_unsupported_bit_depth_is_rejected() {
    let m = gray_meta("MONOCHROME2", 12, 1, 1, vec![1, 2]);
    assert_eq!(convert_grayscale(&m), Err(ConvertError::UnsupportedBitDepth(12)));
}

#[test]
fn grayscale_short_buffer_is_rejected() {
    let m = gray_meta("MONOCHROME2", 8, 2, 2, vec![1, 2, 3]);
    assert_eq!(
        convert_grayscale(&m),
        Err(ConvertError::ImageBufferConstructionFailure)
    );
}

#[test]
fn grayscale_degenerate_single_level_image() {
    let m = gray_meta("MONOCHROME2", 8, 1, 2, vec![77, 77]);
    let img = convert_grayscale(&m).unwrap();
    // One gray level only: the spread degenerates to a unit range and every
    // pixel maps to zero.
    assert_eq!(img.data().as_slice(), &[0, 0, 0, 0, 0, 0]);
}

#[test]
fn grayscale_rescale_offset_does_not_change_window() {
    // The affine transform shifts every value alike, so auto-windowing
    // yields the same raster.
    let samples = vec![3, 250, 90, 11];
    let mut shifted = gray_meta("MONOCHROME2", 8, 2, 2, samples.clone());
    shifted.rescale = RescaleParams::new(1000, -250_000);
    let plain = convert_grayscale(&gray_meta("MONOCHROME2", 8, 2, 2, samples)).unwrap();
    let moved = convert_grayscale(&shifted).unwrap();
    assert_eq!(plain.data(), moved.data());
}

#[test]
fn grayscale_32bit_normalizes_dynamic_range() {
    // 1x2 image, samples 0 and 1000 as little-endian quads.
    let mut bytes = Vec::new();
    for v in [0u32, 1000] {
        bytes.extend_from_slice(&[
            (v & 0xff) as u8,
            ((v >> 8) & 0xff) as u8,
            ((v >> 16) & 0xff) as u8,
            ((v >> 24) & 0xff) as u8,
        ]);
    }
    let m = gray_meta("MONOCHROME2", 32, 1, 2, bytes);
    let img = convert_grayscale(&m).unwrap();
    assert_eq!(img.data().as_slice(), &[0, 0, 0, 255, 255, 255]);
}

#[test]
fn grayscale_extra_frame_bytes_are_ignored() {
    // Two frames' worth of 8-bit samples: the second never reaches the
    // raster, and the window is computed from the first frame alone.
    let first = vec![10u8, 20, 30, 40];
    let mut both = first.clone();
    both.extend_from_slice(&[0, 255, 0, 255]);
    let one = convert_grayscale(&gray_meta("MONOCHROME2", 8, 2, 2, first)).unwrap();
    let two = convert_grayscale(&gray_meta("MONOCHROME2", 8, 2, 2, both)).unwrap();
    assert_eq!(one.data(), two.data());
}

#[test]
fn grayscale_negative_slope_flips_the_window() {
    // A negative slope reverses the ordering of the rescaled values, so the
    // smallest stored sample becomes the brightest pixel.
    let samples = vec![0u8, 100];
    let mut m = gray_meta("MONOCHROME2", 8, 1, 2, samples);
    m.rescale = RescaleParams::new(-1000, 0);
    let img = convert_grayscale(&m).unwrap();
    assert_eq!(img.data().as_slice(), &[255, 255, 255, 0, 0, 0]);
}
