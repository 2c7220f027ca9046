//! Behaviour of the pixel-data decoder collaborator on 4:2:2 data, which is
//! why the library upsamples and colour-converts such buffers itself.

use dicom::object::open_file;
use dicom::pixeldata::{ConvertOptions, ModalityLutOption, PixelDecoder};
use std::path::Path;

#[test]
fn test_ybr_full_422_to_dynamic_image_bug() {
    // Test that documents the frame indexing bug in the decoder collaborator:
    // for YBR_FULL_422 files, to_dynamic_image() incorrectly reports
    // "frame #0 is out of range" even when number_of_frames() returns 1.
    let file_path = ".test-files/SC_ybr_full_422_uncompressed.dcm";
    let path = Path::new(file_path);

    // Skip test if file doesn't exist.
    if !path.exists() {
        println!("SKIP: {file_path} not found");
        return;
    }

    let obj = open_file(path).expect("Failed to open file");

    // Decode pixel data.
    let decoded_pixel_data = obj
        .decode_pixel_data()
        .expect("Failed to decode pixel data");

    // Check number of frames.
    let num_frames = decoded_pixel_data.number_of_frames();
    println!("YBR_FULL_422 file has {num_frames} frames");
    assert_eq!(num_frames, 1, "Expected 1 frame");

    // Try to convert to dynamic image - this should fail due to the bug.
    let options = ConvertOptions::new().with_modality_lut(ModalityLutOption::None);

    let result = decoded_pixel_data.to_dynamic_image_with_options(0, &options);

    // This test documents the known bug - we expect it to fail.
    assert!(
        result.is_err(),
        "Expected to_dynamic_image() to fail for YBR_FULL_422 due to frame indexing bug, \
        but it succeeded. This might mean the bug was fixed in the decoder!"
    );

    let err = result.unwrap_err();
    let err_msg = format!("{err}");
    println!("Expected error (bug confirmed): {err_msg}");

    // The error should mention "out of range" or "frame".
    assert!(
        err_msg.to_lowercase().contains("out of range")
            || err_msg.to_lowercase().contains("frame"),
        "Expected 'out of range' error, got: {err_msg}"
    );
}
