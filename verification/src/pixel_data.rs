//! Classification of the supplied pixel buffer.
//!
//! The surrounding program obtains the pixel bytes from a file-parsing
//! collaborator (decompressed for a compressed transfer syntax, verbatim
//! otherwise) and hands them here as plain values, together with the
//! descriptive fields.  This module decides which buffer the collaborator
//! must supply, normalises byte order, and tags the buffer with the
//! conversion pass it still needs.

use vstd::prelude::*;

use crate::error::ConvertError;
use crate::text::{spec_str_begins, str_begins, str_eq};
use crate::types::spec_big_endian_uid;

verus! {

/// A pixel buffer together with the conversion pass it still needs.
///
/// The byte sequence is owned outright and moves into exactly one converter;
/// the tag is assigned once here and never changed.
#[derive(Debug, Clone, PartialEq, Eq)]
pub enum DecodedPixelData {
    /// Needs the colour-matrix pass (also used for palette and 32-bit data,
    /// which carry their photometric interpretation alongside).
    YcbCr(Vec<u8>),
    /// Already displayable interleaved RGB.
    Rgb(Vec<u8>),
    /// Grayscale-like data in its native layout.
    Native(Vec<u8>),
}

/// The conversion pass a buffer still needs; the ghost shadow of
/// [`DecodedPixelData`] without its payload.
pub enum PixelTag {
    YcbCr,
    Rgb,
    Native,
}

impl DecodedPixelData {
    /// The bytes carried, whatever the tag.
    pub open spec fn spec_bytes(&self) -> Seq<u8> {
        match self {
            DecodedPixelData::YcbCr(d) => d@,
            DecodedPixelData::Rgb(d) => d@,
            DecodedPixelData::Native(d) => d@,
        }
    }

    /// The tag alone.
    pub open spec fn spec_tag(&self) -> PixelTag {
        match self {
            DecodedPixelData::YcbCr(_) => PixelTag::YcbCr,
            DecodedPixelData::Rgb(_) => PixelTag::Rgb,
            DecodedPixelData::Native(_) => PixelTag::Native,
        }
    }

    pub fn data(&self) -> (r: &Vec<u8>)
        ensures
            r@ == self.spec_bytes(),
    {
        match self {
            DecodedPixelData::YcbCr(d) => d,
            DecodedPixelData::Rgb(d) => d,
            DecodedPixelData::Native(d) => d,
        }
    }
}

/// UID prefix shared by the JPEG family (baseline, 2000, LS).
pub open spec fn spec_jpeg_uid_prefix() -> Seq<char> {
    "1.2.840.10008.1.2.4"@
}

/// UID prefix of RLE lossless.
pub open spec fn spec_rle_uid_prefix() -> Seq<char> {
    "1.2.840.10008.1.2.5"@
}

/// Whether a transfer-syntax UID names a compressed encoding.
pub open spec fn spec_uid_compressed(uid: Seq<char>) -> bool {
    spec_str_begins(uid, spec_jpeg_uid_prefix()) || spec_str_begins(uid, spec_rle_uid_prefix())
}

/// Whether a photometric-interpretation code names a YCbCr family member.
pub open spec fn spec_code_ycbcr(pi: Seq<char>) -> bool {
    spec_str_begins(pi, "YBR"@)
}

/// Whether a photometric-interpretation code names palette colour.
pub open spec fn spec_code_palette(pi: Seq<char>) -> bool {
    pi == "PALETTE COLOR"@
}

/// Detect compression from the transfer-syntax UID (JPEG family, JPEG 2000,
/// JPEG-LS, RLE).
pub fn detect_compression(transfer_syntax_uid: &str) -> (r: bool)
    ensures
        r == spec_uid_compressed(transfer_syntax_uid@),
{
    str_begins(transfer_syntax_uid, "1.2.840.10008.1.2.4") || str_begins(
        transfer_syntax_uid,
        "1.2.840.10008.1.2.5",
    )
}

/// Whether the pixel-data field must be read verbatim, bypassing the decoder
/// collaborator's lookup-table logic: true for uncompressed YCbCr or palette
/// data and for uncompressed 32-bit samples.
pub fn uses_raw_pixel_source(
    bits_allocated: u16,
    photometric_interpretation: &str,
    transfer_syntax_uid: &str,
) -> (r: bool)
    ensures
        r == (!spec_uid_compressed(transfer_syntax_uid@) && (spec_code_ycbcr(
            photometric_interpretation@,
        ) || spec_code_palette(photometric_interpretation@) || bits_allocated == 32)),
{
    let compressed = detect_compression(transfer_syntax_uid);
    let special = str_begins(photometric_interpretation, "YBR") || str_eq(
        photometric_interpretation,
        "PALETTE COLOR",
    ) || bits_allocated == 32;
    !compressed && special
}

/// `d` with each two-byte pair swapped.
pub open spec fn spec_swapped16(d: Seq<u8>) -> Seq<u8> {
    Seq::new(d.len(), |i: int| if i % 2 == 0 { d[i + 1] } else { d[i - 1] })
}

/// Swap every big-endian two-byte sample to little-endian order.
fn swap_pairs(data: &Vec<u8>) -> (r: Vec<u8>)
    requires
        data@.len() % 2 == 0,
    ensures
        r@ == spec_swapped16(data@),
{
    let n = data.len();
    let mut out: Vec<u8> = Vec::new();
    let mut i: usize = 0;
    while i < n
        invariant
            i <= n,
            i % 2 == 0,
            n % 2 == 0,
            n == data@.len(),
            out@.len() == i,
            forall|j: int| 0 <= j < i ==> out@[j] == spec_swapped16(data@)[j],
        decreases n - i,
    {
        out.push(data[i + 1]);
        out.push(data[i]);
        i += 2;
    }
    proof {
        assert(out@ =~= spec_swapped16(data@));
    }
    out
}

/// The outcome of classifying a pixel buffer: the tag it gets and the bytes
/// it carries, pair-swapped where big-endian order demands it.
pub open spec fn spec_extract_pixel_data(
    data: Seq<u8>,
    bits_allocated: u16,
    photometric_interpretation: Seq<char>,
    transfer_syntax_uid: Seq<char>,
) -> Result<(PixelTag, Seq<u8>), ConvertError> {
    let compressed = spec_uid_compressed(transfer_syntax_uid);
    let ycbcr = spec_code_ycbcr(photometric_interpretation);
    let needs_swap = !compressed && bits_allocated == 16 && transfer_syntax_uid
        == spec_big_endian_uid();
    if data.len() == 0 {
        Err(ConvertError::MissingPixelData)
    } else if needs_swap && data.len() % 2 != 0 {
        Err(ConvertError::InvalidBufferLength)
    } else {
        let out = if needs_swap {
            spec_swapped16(data)
        } else {
            data
        };
        if compressed && ycbcr {
            Ok((PixelTag::Rgb, out))
        } else if ycbcr || spec_code_palette(photometric_interpretation) || bits_allocated == 32 {
            Ok((PixelTag::YcbCr, out))
        } else {
            Ok((PixelTag::Native, out))
        }
    }
}

/// Classify the pixel buffer the collaborator supplied and normalise its byte
/// order.
///
/// A compressed transfer syntax means the collaborator already decoded the
/// buffer; it is accepted as-is, tagged `Rgb` when the decoder turned YCbCr
/// data into RGB on the way.  An uncompressed big-endian 16-bit buffer has
/// every sample byte-swapped to little-endian, whatever the interpretation.
/// YCbCr, palette and 32-bit buffers are tagged for the second conversion
/// pass; everything else is native grayscale-like data.
pub fn extract_pixel_data(
    data: Vec<u8>,
    bits_allocated: u16,
    photometric_interpretation: &str,
    transfer_syntax_uid: &str,
) -> (r: Result<DecodedPixelData, ConvertError>)
    ensures
        ({
            let s = spec_extract_pixel_data(
                data@,
                bits_allocated,
                photometric_interpretation@,
                transfer_syntax_uid@,
            );
            match r {
                Ok(p) => s == Ok::<_, ConvertError>((p.spec_tag(), p.spec_bytes())),
                Err(e) => s == Err::<(PixelTag, Seq<u8>), _>(e),
            }
        }),
{
    let compressed = detect_compression(transfer_syntax_uid);
    let ycbcr = str_begins(photometric_interpretation, "YBR");
    let palette = str_eq(photometric_interpretation, "PALETTE COLOR");
    let needs_swap = !compressed && bits_allocated == 16 && str_eq(
        transfer_syntax_uid,
        "1.2.840.10008.1.2.2",
    );
    if data.len() == 0 {
        return Err(ConvertError::MissingPixelData);
    }
    if needs_swap && data.len() % 2 != 0 {
        return Err(ConvertError::InvalidBufferLength);
    }
    let out: Vec<u8> = if needs_swap {
        swap_pairs(&data)
    } else {
        data
    };
    if compressed && ycbcr {
        Ok(DecodedPixelData::Rgb(out))
    } else if ycbcr || palette || bits_allocated == 32 {
        Ok(DecodedPixelData::YcbCr(out))
    } else {
        Ok(DecodedPixelData::Native(out))
    }
}

} // verus!
