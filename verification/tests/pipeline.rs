//! Tests of the dispatch, buffer classification, validation and the
//! descriptive types.

use dcmv::error::ConvertError;
use dcmv::image::convert_to_image;
use dcmv::image::normalization::{find_min_max, normalize_u32_to_u8};
use dcmv::metadata::DicomMetadata;
use dcmv::photometric::PhotometricInterpretation;
use dcmv::pixel_data::{detect_compression, extract_pixel_data, uses_raw_pixel_source,
    DecodedPixelData};
use dcmv::types::{BitDepth, Dimensions, PatientInfo, RescaleParams, StudyInfo, TransferSyntax};
use dcmv::validation::{validate_bits_allocated, validate_metadata,
    validate_photometric_samples, validate_planar_configuration};

fn meta(
    pi: &str,
    bits: u16,
    rows: u16,
    cols: u16,
    spp: u16,
    data: DecodedPixelData,
) -> DicomMetadata {
    DicomMetadata {
        dimensions: Dimensions::new(rows, cols),
        bit_depth: BitDepth::new(bits, bits),
        photometric_interpretation: PhotometricInterpretation::parse(pi),
        samples_per_pixel: spp,
        planar_configuration: None,
        number_of_frames: 1,
        pixel_data_format: data,
        rescale: RescaleParams::new(1000, 0),
        patient: PatientInfo::new(),
        study: StudyInfo::new(),
        sop_class: None,
        transfer_syntax: TransferSyntax::new(
            String::from("1.2.840.10008.1.2.1"),
            String::from("Explicit VR Little Endian"),
        ),
    }
}

#[test]
fn dispatch_palette_color_is_rejected() {
    let m = meta(
        "PALETTE COLOR",
        8,
        1,
        1,
        1,
        DecodedPixelData::YcbCr(vec![1]),
    );
    assert_eq!(
        convert_to_image(&m),
        Err(ConvertError::UnsupportedPhotometricInterpretation)
    );
}

#[test]
fn dispatch_unknown_interpretation_is_rejected() {
    let m = meta("YBR_RCT", 8, 1, 1, 3, DecodedPixelData::YcbCr(vec![1, 2, 3]));
    assert_eq!(
        convert_to_image(&m),
        Err(ConvertError::UnsupportedPhotometricInterpretation)
    );
}

#[test]
fn dispatch_rgb_tagged_buffer_passes_through() {
    // A buffer the extractor already resolved to RGB skips the colour
    // matrix, whatever the interpretation says; extra frames are cut off.
    let mut bytes = vec![1, 2, 3, 4, 5, 6];
    bytes.extend_from_slice(&[7, 8, 9, 10, 11, 12]);
    let m = meta("YBR_FULL_422", 8, 1, 2, 3, DecodedPixelData::Rgb(bytes));
    let img = convert_to_image(&m).unwrap();
    assert_eq!(img.data().as_slice(), &[1, 2, 3, 4, 5, 6]);
    assert_eq!(img.width(), 2);
    assert_eq!(img.height(), 1);
}

#[test]
fn dispatch_rgb_tagged_short_buffer_is_rejected() {
    let m = meta("RGB", 8, 2, 2, 3, DecodedPixelData::Rgb(vec![1, 2, 3]));
    assert_eq!(convert_to_image(&m), Err(ConvertError::InvalidBufferLength));
}

#[test]
fn dispatch_grayscale_goes_to_grayscale_path() {
    let m = meta("MONOCHROME2", 8, 1, 2, 1, DecodedPixelData::Native(vec![0, 255]));
    let img = convert_to_image(&m).unwrap();
    assert_eq!(img.data().as_slice(), &[0, 0, 0, 255, 255, 255]);
}

#[test]
fn extract_empty_buffer_is_missing_pixel_data() {
    assert_eq!(
        extract_pixel_data(Vec::new(), 8, "MONOCHROME2", "1.2.840.10008.1.2.1"),
        Err(ConvertError::MissingPixelData)
    );
}

#[test]
fn extract_big_endian_16bit_swaps_pairs() {
    let r = extract_pixel_data(
        vec![0x12, 0x34, 0x56, 0x78],
        16,
        "MONOCHROME2",
        "1.2.840.10008.1.2.2",
    )
    .unwrap();
    match r {
        DecodedPixelData::Native(d) => assert_eq!(d, vec![0x34, 0x12, 0x78, 0x56]),
        other => panic!("expected a native buffer, got {:?}", other),
    }
}

#[test]
fn extract_big_endian_odd_length_is_rejected() {
    assert_eq!(
        extract_pixel_data(vec![1, 2, 3], 16, "MONOCHROME2", "1.2.840.10008.1.2.2"),
        Err(ConvertError::InvalidBufferLength)
    );
}

#[test]
fn extract_compressed_ycbcr_is_tagged_rgb() {
    // A JPEG-family syntax means the decoder already produced RGB.
    let r = extract_pixel_data(
        vec![9, 9, 9],
        8,
        "YBR_FULL_422",
        "1.2.840.10008.1.2.4.50",
    )
    .unwrap();
    assert!(matches!(r, DecodedPixelData::Rgb(_)));
}

#[test]
fn extract_uncompressed_ycbcr_needs_conversion() {
    let r = extract_pixel_data(vec![9, 9, 9], 8, "YBR_FULL_422", "1.2.840.10008.1.2.1").unwrap();
    assert!(matches!(r, DecodedPixelData::YcbCr(_)));
}

#[test]
fn extract_palette_and_32bit_are_tagged_for_second_pass() {
    let p = extract_pixel_data(vec![1], 8, "PALETTE COLOR", "1.2.840.10008.1.2.1").unwrap();
    assert!(matches!(p, DecodedPixelData::YcbCr(_)));
    let w = extract_pixel_data(vec![1, 2, 3, 4], 32, "MONOCHROME2", "1.2.840.10008.1.2.1")
        .unwrap();
    assert!(matches!(w, DecodedPixelData::YcbCr(_)));
}

#[test]
fn extract_plain_grayscale_is_native() {
    let r = extract_pixel_data(vec![5, 6], 8, "MONOCHROME2", "1.2.840.10008.1.2.1").unwrap();
    match r {
        DecodedPixelData::Native(d) => assert_eq!(d, vec![5, 6]),
        other => panic!("expected a native buffer, got {:?}", other),
    }
}

#[test]
fn compression_detection_by_uid() {
    assert!(detect_compression("1.2.840.10008.1.2.4.50"));
    assert!(detect_compression("1.2.840.10008.1.2.4.90"));
    assert!(detect_compression("1.2.840.10008.1.2.5"));
    assert!(!detect_compression("1.2.840.10008.1.2"));
    assert!(!detect_compression("1.2.840.10008.1.2.1"));
    assert!(!detect_compression("1.2.840.10008.1.2.2"));
}

#[test]
fn raw_source_selection() {
    assert!(uses_raw_pixel_source(8, "YBR_FULL_422", "1.2.840.10008.1.2.1"));
    assert!(uses_raw_pixel_source(8, "PALETTE COLOR", "1.2.840.10008.1.2.1"));
    assert!(uses_raw_pixel_source(32, "MONOCHROME2", "1.2.840.10008.1.2.1"));
    assert!(!uses_raw_pixel_source(8, "YBR_FULL_422", "1.2.840.10008.1.2.4.50"));
    assert!(!uses_raw_pixel_source(16, "MONOCHROME2", "1.2.840.10008.1.2.1"));
}

#[test]
fn validation_accepts_consistent_metadata() {
    let gray = PhotometricInterpretation::parse("MONOCHROME1");
    let rgb = PhotometricInterpretation::parse("RGB");
    assert_eq!(validate_metadata(&gray, 1, None, 16), Ok(()));
    assert_eq!(validate_metadata(&rgb, 3, Some(1), 8), Ok(()));
}

#[test]
fn validation_rejects_sample_count_mismatch() {
    let gray = PhotometricInterpretation::parse("MONOCHROME2");
    assert_eq!(
        validate_photometric_samples(&gray, 3),
        Err(ConvertError::InconsistentMetadata)
    );
    let rgb = PhotometricInterpretation::parse("RGB");
    assert_eq!(
        validate_photometric_samples(&rgb, 1),
        Err(ConvertError::InconsistentMetadata)
    );
}

#[test]
fn validation_rejects_planar_grayscale() {
    let gray = PhotometricInterpretation::parse("MONOCHROME2");
    assert_eq!(
        validate_planar_configuration(Some(0), &gray),
        Err(ConvertError::InconsistentMetadata)
    );
    let ybr = PhotometricInterpretation::parse("YBR_FULL");
    assert_eq!(validate_planar_configuration(Some(1), &ybr), Ok(()));
}

#[test]
fn validation_rejects_odd_bit_depths() {
    assert_eq!(validate_bits_allocated(8), Ok(()));
    assert_eq!(validate_bits_allocated(16), Ok(()));
    assert_eq!(validate_bits_allocated(32), Ok(()));
    assert_eq!(
        validate_bits_allocated(12),
        Err(ConvertError::InconsistentMetadata)
    );
}

#[test]
fn photometric_parsing_and_predicates() {
    let m1 = PhotometricInterpretation::parse("MONOCHROME1");
    let m2 = PhotometricInterpretation::parse("MONOCHROME2");
    let rgb = PhotometricInterpretation::parse("RGB");
    let ybr = PhotometricInterpretation::parse("YBR_FULL");
    let ybr422 = PhotometricInterpretation::parse("YBR_FULL_422");
    let pal = PhotometricInterpretation::parse("PALETTE COLOR");
    let other = PhotometricInterpretation::parse("YBR_RCT");
    assert!(m1.is_grayscale() && m2.is_grayscale());
    assert!(m1.should_invert() && !m2.should_invert());
    assert!(rgb.is_rgb() && !rgb.is_grayscale());
    assert!(ybr.is_ycbcr() && ybr422.is_ycbcr());
    assert!(!pal.is_grayscale() && !pal.is_rgb() && !pal.is_ycbcr());
    assert_eq!(other, PhotometricInterpretation::Unknown(String::from("YBR_RCT")));
}

#[test]
fn photometric_parse_trims_padding() {
    // DICOM code strings are routinely space-padded; the padding never
    // changes the parse.
    assert_eq!(
        PhotometricInterpretation::parse(" RGB "),
        PhotometricInterpretation::Rgb
    );
    assert_eq!(
        PhotometricInterpretation::parse("MONOCHROME1 "),
        PhotometricInterpretation::Monochrome1
    );
    assert_eq!(
        PhotometricInterpretation::parse("\tYBR_FULL_422\n"),
        PhotometricInterpretation::YbrFull422
    );
    assert_eq!(
        PhotometricInterpretation::parse(" YBR_RCT "),
        PhotometricInterpretation::Unknown(String::from("YBR_RCT"))
    );
}

#[test]
fn dimensions_and_bit_depth_arithmetic() {
    let d = Dimensions::new(1855, 1991);
    assert_eq!(d.pixel_count(), 1855 * 1991);
    assert!(d.is_valid());
    assert!(!Dimensions::new(0, 10).is_valid());
    let b = BitDepth::new(16, 15);
    assert_eq!(b.bytes_per_pixel(), 2);
    assert!(b.is_valid());
    assert!(BitDepth::new(8, 8).is_valid());
    assert!(BitDepth::new(32, 32).is_valid());
    assert!(!BitDepth::new(16, 17).is_valid());
    assert!(!BitDepth::new(12, 12).is_valid());
    assert!(!BitDepth::new(64, 16).is_valid());
}

#[test]
fn transfer_syntax_endianness() {
    let be = TransferSyntax::new(String::from("1.2.840.10008.1.2.2"), String::from("x"));
    let le = TransferSyntax::new(String::from("1.2.840.10008.1.2.1"), String::from("x"));
    assert!(be.is_big_endian());
    assert!(!le.is_big_endian());
}

#[test]
fn rescale_apply_is_exact_fixed_point() {
    // A slope of one and a half with an intercept of a quarter, in
    // thousandths.
    let rp = RescaleParams::new(1500, 250);
    assert_eq!(rp.apply(2), 3250);
    let id = RescaleParams::default();
    assert_eq!(id.apply(4095), 4_095_000);
}

#[test]
fn min_max_and_normalization_helpers() {
    let vals = vec![7u32, 3, 9, 3, 8];
    assert_eq!(find_min_max(&vals), (3, 9));
    assert_eq!(normalize_u32_to_u8(9, 3, 6), 255);
    assert_eq!(normalize_u32_to_u8(3, 3, 6), 0);
    assert_eq!(normalize_u32_to_u8(6, 3, 6), 127);
}

#[test]
fn metadata_accessors_reflect_fields() {
    let mut m = meta("MONOCHROME2", 16, 3, 4, 1, DecodedPixelData::Native(vec![1, 2]));
    m.patient.name = Some(String::from("A"));
    m.study.modality = Some(String::from("CR"));
    assert_eq!(m.rows(), 3);
    assert_eq!(m.cols(), 4);
    assert_eq!(m.bits_allocated(), 16);
    assert_eq!(m.bits_stored(), 16);
    assert!(!m.is_big_endian());
    assert!(!m.is_already_rgb());
    assert_eq!(m.pixel_data().as_slice(), &[1, 2]);
    assert_eq!(m.patient_name(), Some("A"));
    assert_eq!(m.patient_id(), None);
    assert_eq!(m.modality(), Some("CR"));
    assert!(m.patient.has_info());
    assert!(m.study.has_info());
    assert!(!PatientInfo::new().has_info());
    assert!(!StudyInfo::new().has_info());
}

#[test]
fn dispatch_ycbcr_goes_to_colour_matrix_path() {
    // Neutral chroma leaves luma untouched through the dispatch as well.
    let m = meta(
        "YBR_FULL",
        8,
        1,
        2,
        3,
        DecodedPixelData::YcbCr(vec![50, 128, 128, 200, 128, 128]),
    );
    let img = convert_to_image(&m).unwrap();
    assert_eq!(img.data().as_slice(), &[50, 50, 50, 200, 200, 200]);
}

#[test]
fn zero_pixel_image_converts_to_empty_raster() {
    let m = meta("MONOCHROME2", 8, 0, 5, 1, DecodedPixelData::Native(Vec::new()));
    let img = convert_to_image(&m).unwrap();
    assert_eq!(img.width(), 5);
    assert_eq!(img.height(), 0);
    assert!(img.data().is_empty());
}
