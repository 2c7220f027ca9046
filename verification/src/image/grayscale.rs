//! Grayscale conversion: rescale, auto-window to the value range actually
//! present, quantise to 8 bits, invert for white-is-minimum data, and
//! replicate the gray level across the three output channels.

use vstd::prelude::*;

use crate::error::ConvertError;
use crate::image::normalization::{
    find_min_max, find_min_max_i64, lemma_norm_scale_bounds, lemma_seq_min_max_bounds,
    lemma_seq_min_max_mem, parse_samples16, parse_samples32, seq_max, seq_min, spec_ints_i64,
    spec_ints_u32, spec_norm_seq, spec_range, spec_samples16, spec_samples32,
};
use crate::image::RgbImage;
use crate::metadata::DicomMetadata;
use crate::types::RescaleParams;

verus! {

/// The grayscale samples of the first frame, before rescaling: bytes widened
/// for 8-bit data, little-endian pairs for 16-bit data, and for 32-bit data
/// the little-endian quads min/max-normalised onto a 16-bit range to bound
/// the dynamic range.  Only the first `pc` samples take part.
pub open spec fn spec_gray_samples(d: Seq<u8>, bits: u16, pc: int) -> Seq<u16> {
    if bits == 8 {
        d.take(pc).map_values(|b: u8| b as u16)
    } else if bits == 16 {
        spec_samples16(d).take(pc)
    } else {
        let wide = spec_ints_u32(spec_samples32(d).take(pc));
        spec_norm_seq(wide, 65535).map_values(|v: int| v as u16)
    }
}

/// Every sample after the affine rescale transform.
pub open spec fn spec_rescaled_seq(s: Seq<u16>, rp: RescaleParams) -> Seq<int> {
    s.map_values(|v: u16| rp.spec_rescaled(v as int))
}

/// The displayed gray level of each sample: the rescaled value normalised
/// onto `[0, 255]` by the sequence's own minimum and spread, complemented
/// when inversion is requested.
pub open spec fn spec_gray_levels(s: Seq<u16>, rp: RescaleParams, invert: bool) -> Seq<int> {
    spec_norm_seq(spec_rescaled_seq(s, rp), 255).map_values(
        |g: int|
            if invert {
                255 - g
            } else {
                g
            },
    )
}

/// How many raw samples the buffer holds at the given width.
pub open spec fn spec_gray_sample_count(d: Seq<u8>, bits: u16) -> int {
    if bits == 8 {
        d.len() as int
    } else if bits == 16 {
        d.len() as int / 2
    } else {
        d.len() as int / 4
    }
}

/// The whole outcome of grayscale conversion.
pub open spec fn spec_convert_grayscale(m: DicomMetadata) -> Result<Seq<u8>, ConvertError> {
    let bits = m.bit_depth.allocated;
    let d = m.spec_pixel_bytes();
    let pc = m.dimensions.rows * m.dimensions.cols;
    if !(bits == 8 || bits == 16 || bits == 32) {
        Err(ConvertError::UnsupportedBitDepth(bits))
    } else if (bits == 16 && d.len() % 2 != 0) || (bits == 32 && d.len() % 4 != 0) {
        Err(ConvertError::InvalidBufferLength)
    } else if spec_gray_sample_count(d, bits) < pc {
        Err(ConvertError::ImageBufferConstructionFailure)
    } else {
        let g = spec_gray_levels(
            spec_gray_samples(d, bits, pc as int),
            m.rescale,
            m.photometric_interpretation is Monochrome1,
        );
        Ok(Seq::new((3 * pc) as nat, |k: int| g[k / 3] as u8))
    }
}

/// Every gray level lies in `[0, 255]`, so the byte cast in the outcome
/// description never wraps.
pub proof fn lemma_gray_levels_bounds(s: Seq<u16>, rp: RescaleParams, invert: bool, i: int)
    requires
        0 <= i < s.len(),
    ensures
        0 <= spec_gray_levels(s, rp, invert)[i] <= 255,
{
    let r = spec_rescaled_seq(s, rp);
    lemma_seq_min_max_bounds(r, i);
    lemma_norm_scale_bounds(r[i], seq_min(r), spec_range(r), 255);
}

/// Normalisation is monotonic: of two samples, the one with the smaller
/// rescaled value never gets the larger gray level.
pub proof fn lemma_grayscale_monotone(s: Seq<u16>, rp: RescaleParams, i: int, j: int)
    requires
        0 <= i < s.len(),
        0 <= j < s.len(),
        rp.spec_rescaled(s[i] as int) < rp.spec_rescaled(s[j] as int),
    ensures
        spec_gray_levels(s, rp, false)[i] <= spec_gray_levels(s, rp, false)[j],
{
    let r = spec_rescaled_seq(s, rp);
    let lo = seq_min(r);
    let range = spec_range(r);
    vstd::arithmetic::mul::lemma_mul_inequality(r[i] - lo, r[j] - lo, 255);
    vstd::arithmetic::div_mod::lemma_div_is_ordered((r[i] - lo) * 255, (r[j] - lo) * 255, range);
}

/// Inversion is an involution: under the same minimum and spread, the
/// inverted gray level is exactly `255` minus the plain one, so converting
/// with inversion toggled and complementing restores the plain result.
pub proof fn lemma_grayscale_inversion(s: Seq<u16>, rp: RescaleParams, i: int)
    requires
        0 <= i < s.len(),
    ensures
        spec_gray_levels(s, rp, true)[i] == 255 - spec_gray_levels(s, rp, false)[i],
{
}

/// A successful grayscale conversion yields `rows * cols * 3` bytes, and
/// each pixel's three channels carry one and the same gray level.
pub proof fn lemma_grayscale_shape(m: DicomMetadata, out: Seq<u8>)
    requires
        spec_convert_grayscale(m) == Ok::<Seq<u8>, ConvertError>(out),
    ensures
        out.len() == 3 * (m.dimensions.rows * m.dimensions.cols),
        forall|k: int|
            0 <= k < m.dimensions.rows * m.dimensions.cols ==> #[trigger] out[3 * k] == out[3 * k
                + 1] && out[3 * k + 1] == out[3 * k + 2],
{
    let pc = m.dimensions.rows * m.dimensions.cols;
    assert forall|k: int| 0 <= k < pc implies #[trigger] out[3 * k] == out[3 * k + 1] && out[3 * k
        + 1] == out[3 * k + 2] by {
        assert((3 * k) / 3 == k && (3 * k + 1) / 3 == k && (3 * k + 2) / 3 == k);
    }
}

/// The converted raster depends only on the first frame's samples: a
/// multi-frame buffer and its first-frame prefix convert identically, the
/// auto-window included.
pub proof fn lemma_grayscale_first_frame(m1: DicomMetadata, m2: DicomMetadata)
    requires
        m1.bit_depth == m2.bit_depth,
        m1.bit_depth.allocated == 8 || m1.bit_depth.allocated == 16 || m1.bit_depth.allocated
            == 32,
        m1.dimensions == m2.dimensions,
        m1.photometric_interpretation == m2.photometric_interpretation,
        m1.rescale == m2.rescale,
        ({
            let w = if m1.bit_depth.allocated == 8 {
                1int
            } else if m1.bit_depth.allocated == 16 {
                2int
            } else {
                4int
            };
            let pc = m1.dimensions.rows * m1.dimensions.cols;
            &&& m1.spec_pixel_bytes().len() as int % w == 0
            &&& m1.spec_pixel_bytes().len() as int >= w * pc
            &&& m2.spec_pixel_bytes() == m1.spec_pixel_bytes().take(w * pc)
        }),
    ensures
        spec_convert_grayscale(m1) == spec_convert_grayscale(m2),
{
    let bits = m1.bit_depth.allocated;
    let pc = m1.dimensions.rows * m1.dimensions.cols;
    let d1 = m1.spec_pixel_bytes();
    let d2 = m2.spec_pixel_bytes();
    if bits == 8 {
        assert(d1.take(pc as int) =~= d2.take(pc as int));
    } else if bits == 16 {
        assert(d2.len() == 2 * pc && d2.len() % 2 == 0);
        assert(spec_samples16(d1).take(pc as int) =~= spec_samples16(d2).take(pc as int));
    } else {
        assert(d2.len() == 4 * pc && d2.len() % 4 == 0);
        assert(spec_samples32(d1).take(pc as int) =~= spec_samples32(d2).take(pc as int));
    }
    assert(spec_gray_samples(d1, bits, pc as int) == spec_gray_samples(d2, bits, pc as int));
}

/// Parse the first frame's samples at the declared bit depth, widening or
/// range-compressing as the depth demands.
fn extract_grayscale_pixels(m: &DicomMetadata) -> (r: Result<Vec<u16>, ConvertError>)
    ensures
        match r {
            Ok(samples) => {
                let bits = m.bit_depth.allocated;
                let d = m.spec_pixel_bytes();
                let pc = m.dimensions.rows * m.dimensions.cols;
                &&& (bits == 8 || bits == 16 || bits == 32)
                &&& !((bits == 16 && d.len() % 2 != 0) || (bits == 32 && d.len() % 4 != 0))
                &&& spec_gray_sample_count(d, bits) >= pc
                &&& samples@ == spec_gray_samples(d, bits, pc as int)
            },
            Err(e) => spec_convert_grayscale(*m) == Err::<Seq<u8>, ConvertError>(e),
        },
{
    let bits = m.bits_allocated();
    let d = m.pixel_data();
    let pc = m.dimensions.pixel_count();
    let ghost dv = m.spec_pixel_bytes();
    if !(bits == 8 || bits == 16 || bits == 32) {
        return Err(ConvertError::UnsupportedBitDepth(bits));
    }
    if (bits == 16 && d.len() % 2 != 0) || (bits == 32 && d.len() % 4 != 0) {
        return Err(ConvertError::InvalidBufferLength);
    }
    if bits == 8 {
        if d.len() < pc {
            return Err(ConvertError::ImageBufferConstructionFailure);
        }
        let mut out: Vec<u16> = Vec::new();
        let mut i: usize = 0;
        while i < pc
            invariant
                i <= pc,
                pc <= dv.len(),
                dv == d@,
                out@.len() == i,
                forall|j: int| 0 <= j < i ==> out@[j] == dv[j] as u16,
            decreases pc - i,
        {
            out.push(d[i] as u16);
            i += 1;
        }
        proof {
            assert(out@ =~= spec_gray_samples(dv, 8, pc as int));
        }
        Ok(out)
    } else if bits == 16 {
        if d.len() / 2 < pc {
            return Err(ConvertError::ImageBufferConstructionFailure);
        }
        let mut out = parse_samples16(d);
        out.truncate(pc);
        proof {
            assert(out@ =~= spec_gray_samples(dv, 16, pc as int));
        }
        Ok(out)
    } else {
        if d.len() / 4 < pc {
            return Err(ConvertError::ImageBufferConstructionFailure);
        }
        let mut vals = parse_samples32(d);
        vals.truncate(pc);
        let ghost wide = spec_ints_u32(spec_samples32(dv).take(pc as int));
        proof {
            assert(vals@ =~= spec_samples32(dv).take(pc as int));
        }
        let mut out: Vec<u16> = Vec::new();
        if pc > 0 {
            let (lo, hi) = find_min_max(&vals);
            let range: u32 = if hi > lo {
                hi - lo
            } else {
                1
            };
            proof {
                assert(seq_min(wide) == lo && seq_max(wide) == hi);
                assert(spec_range(wide) == range);
            }
            let mut i: usize = 0;
            while i < pc
                invariant
                    i <= pc,
                    pc == vals@.len(),
                    wide == spec_ints_u32(vals@),
                    lo == seq_min(wide),
                    hi == seq_max(wide),
                    range == spec_range(wide),
                    lo <= hi,
                    range >= 1,
                    out@.len() == i,
                    forall|j: int|
                        0 <= j < i ==> out@[j] == spec_norm_seq(wide, 65535)[j] as u16,
                decreases pc - i,
            {
                let v = vals[i];
                proof {
                    lemma_seq_min_max_bounds(wide, i as int);
                    lemma_norm_scale_bounds(v as int, lo as int, range as int, 65535);
                }
                let w: u16 = ((((v - lo) as u64) * 65535) / (range as u64)) as u16;
                out.push(w);
                i += 1;
            }
        }
        proof {
            assert(out@ =~= spec_gray_samples(dv, 32, pc as int));
        }
        Ok(out)
    }
}

/// Convert a grayscale buffer to an interleaved RGB raster.
///
/// The samples are rescaled by the slope/intercept transform, auto-windowed
/// to the minimum and maximum actually present (a degenerate single-level
/// image uses a unit spread), truncated onto `[0, 255]`, inverted when the
/// interpretation is white-is-minimum, and each gray level is emitted three
/// times.
pub fn convert_grayscale(m: &DicomMetadata) -> (r: Result<RgbImage, ConvertError>)
    ensures
        match r {
            Ok(img) => {
                &&& spec_convert_grayscale(*m) == Ok::<Seq<u8>, ConvertError>(img.data@)
                &&& img.width == m.dimensions.cols
                &&& img.height == m.dimensions.rows
                &&& img.wf()
            },
            Err(e) => spec_convert_grayscale(*m) == Err::<Seq<u8>, ConvertError>(e),
        },
{
    let samples = match extract_grayscale_pixels(m) {
        Ok(s) => s,
        Err(e) => {
            return Err(e);
        },
    };
    let pc = m.dimensions.pixel_count();
    let invert = m.photometric_interpretation.should_invert();
    let ghost gray = spec_gray_levels(samples@, m.rescale, invert);
    let ghost resc = spec_rescaled_seq(samples@, m.rescale);

    let mut rescaled: Vec<i64> = Vec::new();
    let mut i: usize = 0;
    while i < pc
        invariant
            i <= pc,
            pc == samples@.len(),
            resc == spec_rescaled_seq(samples@, m.rescale),
            rescaled@.len() == i,
            forall|j: int| 0 <= j < i ==> rescaled@[j] == resc[j],
            forall|j: int|
                0 <= j < i ==> -0x8001_0000_0000 <= #[trigger] rescaled@[j] <= 0x8001_0000_0000,
        decreases pc - i,
    {
        let v = m.rescale.apply(samples[i]);
        rescaled.push(v);
        i += 1;
    }
    proof {
        assert(spec_ints_i64(rescaled@) =~= resc);
    }

    let mut out: Vec<u8> = Vec::new();
    if pc > 0 {
        let (lo, hi) = find_min_max_i64(&rescaled);
        proof {
            lemma_seq_min_max_mem(resc);
            assert(lo == seq_min(resc) && hi == seq_max(resc));
        }
        let range: i64 = if hi > lo {
            hi - lo
        } else {
            1
        };
        proof {
            assert(range == spec_range(resc));
        }
        let mut i: usize = 0;
        while i < pc
            invariant
                i <= pc,
                pc == rescaled@.len(),
                resc == spec_ints_i64(rescaled@),
                gray == spec_gray_levels(samples@, m.rescale, invert),
                gray.len() == pc,
                resc == spec_rescaled_seq(samples@, m.rescale),
                lo == seq_min(resc),
                hi == seq_max(resc),
                range == spec_range(resc),
                lo <= hi,
                range >= 1,
                -0x8001_0000_0000 <= lo,
                hi <= 0x8001_0000_0000,
                out@.len() == 3 * i,
                forall|j: int| 0 <= j < 3 * i ==> #[trigger] out@[j] == gray[j / 3] as u8,
            decreases pc - i,
        {
            let v = rescaled[i];
            proof {
                lemma_seq_min_max_bounds(resc, i as int);
                lemma_norm_scale_bounds(v as int, lo as int, range as int, 255);
            }
            let q: u8 = ((((v - lo) as u64) * 255) / (range as u64)) as u8;
            let g: u8 = if invert {
                255 - q
            } else {
                q
            };
            proof {
                assert(g == gray[i as int]);
                assert((3 * i) / 3 == i as int && (3 * i + 1) / 3 == i as int && (3 * i + 2) / 3
                    == i as int);
            }
            out.push(g);
            out.push(g);
            out.push(g);
            i += 1;
        }
    }
    proof {
        assert(out@ =~= Seq::new((3 * pc) as nat, |k: int| gray[k / 3] as u8));
        assert(3 * (m.dimensions.rows as int * m.dimensions.cols as int) == m.dimensions.cols as int
            * m.dimensions.rows as int * 3) by (nonlinear_arith);
    }
    Ok(RgbImage { width: m.cols() as u32, height: m.rows() as u32, data: out })
}

} // verus!
