//! RGB conversion: reorganise 8-bit or 32-bit samples, interleaved or
//! planar, into an interleaved 8-bit raster.  32-bit channels are each
//! min/max-normalised on their own; the data is display-ready, so no rescale
//! transform is applied.

use vstd::prelude::*;

use crate::error::ConvertError;
use crate::image::normalization::{
    find_min_max, lemma_seq_min_max_bounds, normalize_u32_to_u8, parse_samples32, seq_max,
    seq_min, spec_ints_u32, spec_norm_seq, spec_range, spec_samples32,
};
use crate::image::{take_prefix, RgbImage};
use crate::metadata::DicomMetadata;

verus! {

/// Three contiguous planes of `pc` bytes each, rewoven into interleaved
/// order: output pixel `i` is `(d[i], d[pc + i], d[2 * pc + i])`.
pub open spec fn spec_deplanarize3(d: Seq<u8>, pc: int) -> Seq<u8> {
    Seq::new((3 * pc) as nat, |k: int| d[(k % 3) * pc + k / 3])
}

/// Channel `c` of a 32-bit sample stream of `pc` pixels.
pub open spec fn spec_rgb32_channel(d: Seq<u8>, planar: bool, pc: int, c: int) -> Seq<u32> {
    if planar {
        Seq::new(pc as nat, |i: int| spec_samples32(d)[c * pc + i])
    } else {
        Seq::new(pc as nat, |i: int| spec_samples32(d)[3 * i + c])
    }
}

/// One 32-bit channel normalised onto `[0, 255]` by its own minimum and
/// spread.
pub open spec fn spec_rgb32_norm(d: Seq<u8>, planar: bool, pc: int, c: int) -> Seq<int> {
    spec_norm_seq(spec_ints_u32(spec_rgb32_channel(d, planar, pc, c)), 255)
}

/// The whole outcome of RGB conversion.
pub open spec fn spec_convert_rgb(m: DicomMetadata) -> Result<Seq<u8>, ConvertError> {
    let bits = m.bit_depth.allocated;
    let d = m.spec_pixel_bytes();
    let pc = m.dimensions.rows * m.dimensions.cols;
    if !(bits == 8 || bits == 32) {
        Err(ConvertError::UnsupportedBitDepth(bits))
    } else if bits == 8 {
        if d.len() < 3 * pc {
            Err(ConvertError::InvalidBufferLength)
        } else if m.planar_configuration is None || m.planar_configuration == Some(0u16) {
            Ok(d.take(3 * pc))
        } else if m.planar_configuration == Some(1u16) {
            Ok(spec_deplanarize3(d.take(3 * pc), pc as int))
        } else {
            Err(ConvertError::UnsupportedPlanarConfiguration(m.planar_configuration->0))
        }
    } else {
        if d.len() < 12 * pc {
            Err(ConvertError::InvalidBufferLength)
        } else if m.planar_configuration is None || m.planar_configuration == Some(0u16)
            || m.planar_configuration == Some(1u16) {
            let planar = m.planar_configuration == Some(1u16);
            let frame = d.take(12 * pc);
            Ok(
                Seq::new(
                    (3 * pc) as nat,
                    |k: int| spec_rgb32_norm(frame, planar, pc as int, k % 3)[k / 3] as u8,
                ),
            )
        } else {
            Err(ConvertError::UnsupportedPlanarConfiguration(m.planar_configuration->0))
        }
    }
}

/// Planar and interleaved buffers that encode the same logical image convert
/// to byte-identical interleaved output: reweaving the planes yields exactly
/// the interleaved buffer.
pub proof fn lemma_rgb_planar_interleaved_agree(m1: DicomMetadata, m2: DicomMetadata)
    requires
        m1.bit_depth.allocated == 8,
        m2.bit_depth.allocated == 8,
        m1.dimensions == m2.dimensions,
        m1.planar_configuration == Some(1u16),
        m2.planar_configuration is None || m2.planar_configuration == Some(0u16),
        m1.spec_pixel_bytes().len() == 3 * (m1.dimensions.rows * m1.dimensions.cols),
        m2.spec_pixel_bytes().len() == 3 * (m1.dimensions.rows * m1.dimensions.cols),
        forall|i: int, c: int|
            0 <= i < m1.dimensions.rows * m1.dimensions.cols && 0 <= c < 3
                ==> #[trigger] m1.spec_pixel_bytes()[c * (m1.dimensions.rows
                * m1.dimensions.cols) + i] == m2.spec_pixel_bytes()[3 * i + c],
    ensures
        spec_convert_rgb(m1) == spec_convert_rgb(m2),
{
    let pc = m1.dimensions.rows * m1.dimensions.cols;
    let p = m1.spec_pixel_bytes();
    let q = m2.spec_pixel_bytes();
    assert(p.take(3 * pc) =~= p);
    assert(q.take(3 * pc) =~= q);
    assert forall|k: int| 0 <= k < 3 * pc implies #[trigger] spec_deplanarize3(p, pc as int)[k]
        == q[k] by {
        vstd::arithmetic::div_mod::lemma_fundamental_div_mod(k, 3);
        assert(0 <= k / 3 < pc && 0 <= k % 3 < 3);
        assert(p[(k % 3) * pc + k / 3] == q[3 * (k / 3) + k % 3]);
    }
    assert(spec_deplanarize3(p, pc as int) =~= q);
}

/// The converted raster depends only on the first frame's bytes: an 8-bit
/// buffer and its `rows * cols * 3` prefix convert identically.
pub proof fn lemma_rgb_first_frame(m1: DicomMetadata, m2: DicomMetadata)
    requires
        m1.bit_depth.allocated == 8,
        m2.bit_depth.allocated == 8,
        m1.dimensions == m2.dimensions,
        m1.planar_configuration == m2.planar_configuration,
        m1.spec_pixel_bytes().len() >= 3 * (m1.dimensions.rows * m1.dimensions.cols),
        m2.spec_pixel_bytes() == m1.spec_pixel_bytes().take(
            3 * (m1.dimensions.rows * m1.dimensions.cols),
        ),
    ensures
        spec_convert_rgb(m1) == spec_convert_rgb(m2),
{
    let pc = m1.dimensions.rows * m1.dimensions.cols;
    assert(m2.spec_pixel_bytes().take(3 * pc) =~= m1.spec_pixel_bytes().take(3 * pc));
}

/// Reweave three contiguous 8-bit planes into interleaved order.
pub(crate) fn deplanarize8(d: &Vec<u8>, pc: usize) -> (r: Vec<u8>)
    requires
        d@.len() == 3 * pc,
    ensures
        r@ == spec_deplanarize3(d@, pc as int),
{
    let n = d.len();
    let mut out: Vec<u8> = Vec::new();
    let mut i: usize = 0;
    while i < pc
        invariant
            i <= pc,
            n == d@.len() == 3 * pc,
            3 * pc <= usize::MAX,
            out@.len() == 3 * i,
            forall|k: int| 0 <= k < 3 * i ==> #[trigger] out@[k] == spec_deplanarize3(d@, pc as int)[k],
        decreases pc - i,
    {
        out.push(d[i]);
        out.push(d[pc + i]);
        out.push(d[2 * pc + i]);
        proof {
            assert forall|k: int| 0 <= k < 3 * (i + 1) implies #[trigger] out@[k]
                == spec_deplanarize3(d@, pc as int)[k] by {
                if k == 3 * i {
                    assert(k % 3 == 0 && k / 3 == i as int);
                } else if k == 3 * i + 1 {
                    assert(k % 3 == 1 && k / 3 == i as int);
                } else if k == 3 * i + 2 {
                    assert(k % 3 == 2 && k / 3 == i as int);
                }
            }
        }
        i += 1;
    }
    proof {
        assert(out@ =~= spec_deplanarize3(d@, pc as int));
    }
    out
}

/// Convert an RGB buffer to an interleaved 8-bit raster.
///
/// Only the first frame (`rows * cols` pixels) takes part; trailing frames
/// are ignored.  8-bit data is passed through or rewoven from planes; 32-bit
/// data has each channel min/max-normalised onto `[0, 255]` independently.
pub fn convert_rgb(m: &DicomMetadata) -> (r: Result<RgbImage, ConvertError>)
    ensures
        match r {
            Ok(img) => {
                &&& spec_convert_rgb(*m) == Ok::<Seq<u8>, ConvertError>(img.data@)
                &&& img.width == m.dimensions.cols
                &&& img.height == m.dimensions.rows
                &&& img.wf()
            },
            Err(e) => spec_convert_rgb(*m) == Err::<Seq<u8>, ConvertError>(e),
        },
{
    let bits = m.bits_allocated();
    let d = m.pixel_data();
    let pc = m.dimensions.pixel_count();
    proof {
        assert(3 * (m.dimensions.rows as int * m.dimensions.cols as int) == m.dimensions.cols
            as int * m.dimensions.rows as int * 3) by (nonlinear_arith);
    }
    if !(bits == 8 || bits == 32) {
        return Err(ConvertError::UnsupportedBitDepth(bits));
    }
    if bits == 8 {
        if (d.len() as u64) < 3 * (pc as u64) {
            return Err(ConvertError::InvalidBufferLength);
        }
        proof {
            assert(3 * pc <= d@.len() <= usize::MAX);
        }
        let planar = match m.planar_configuration {
            None => 0u16,
            Some(p) => p,
        };
        if planar > 1 {
            return Err(ConvertError::UnsupportedPlanarConfiguration(planar));
        }
        let frame = take_prefix(d, 3 * pc);
        if planar == 0 {
            Ok(RgbImage { width: m.cols() as u32, height: m.rows() as u32, data: frame })
        } else {
            let out = deplanarize8(&frame, pc);
            Ok(RgbImage { width: m.cols() as u32, height: m.rows() as u32, data: out })
        }
    } else {
        if (d.len() as u64) < 12 * (pc as u64) {
            return Err(ConvertError::InvalidBufferLength);
        }
        proof {
            assert(12 * pc <= d@.len() <= usize::MAX);
        }
        let planar = match m.planar_configuration {
            None => 0u16,
            Some(p) => p,
        };
        if planar > 1 {
            return Err(ConvertError::UnsupportedPlanarConfiguration(planar));
        }
        let frame = take_prefix(d, 12 * pc);
        let vals = parse_samples32(&frame);
        let ghost fv = frame@;
        let ghost is_planar = planar == 1;
        proof {
            assert(vals@.len() == 3 * pc);
        }
        // Split the stream into its three channels.
        let mut rs: Vec<u32> = Vec::new();
        let mut gs: Vec<u32> = Vec::new();
        let mut bs: Vec<u32> = Vec::new();
        let mut i: usize = 0;
        while i < pc
            invariant
                i <= pc,
                vals@.len() == 3 * pc,
                3 * pc <= usize::MAX,
                vals@ == spec_samples32(fv),
                is_planar == (planar == 1),
                rs@.len() == i && gs@.len() == i && bs@.len() == i,
                forall|j: int|
                    0 <= j < i ==> #[trigger] rs@[j] == spec_rgb32_channel(
                        fv,
                        is_planar,
                        pc as int,
                        0,
                    )[j],
                forall|j: int|
                    0 <= j < i ==> #[trigger] gs@[j] == spec_rgb32_channel(
                        fv,
                        is_planar,
                        pc as int,
                        1,
                    )[j],
                forall|j: int|
                    0 <= j < i ==> #[trigger] bs@[j] == spec_rgb32_channel(
                        fv,
                        is_planar,
                        pc as int,
                        2,
                    )[j],
            decreases pc - i,
        {
            if planar == 1 {
                rs.push(vals[i]);
                gs.push(vals[pc + i]);
                bs.push(vals[2 * pc + i]);
            } else {
                rs.push(vals[3 * i]);
                gs.push(vals[3 * i + 1]);
                bs.push(vals[3 * i + 2]);
            }
            i += 1;
        }
        proof {
            assert(rs@ =~= spec_rgb32_channel(fv, is_planar, pc as int, 0));
            assert(gs@ =~= spec_rgb32_channel(fv, is_planar, pc as int, 1));
            assert(bs@ =~= spec_rgb32_channel(fv, is_planar, pc as int, 2));
        }
        let mut out: Vec<u8> = Vec::new();
        if pc > 0 {
            let (r_min, r_max) = find_min_max(&rs);
            let (g_min, g_max) = find_min_max(&gs);
            let (b_min, b_max) = find_min_max(&bs);
            let r_range: u32 = if r_max > r_min {
                r_max - r_min
            } else {
                1
            };
            let g_range: u32 = if g_max > g_min {
                g_max - g_min
            } else {
                1
            };
            let b_range: u32 = if b_max > b_min {
                b_max - b_min
            } else {
                1
            };
            let ghost ri = spec_ints_u32(rs@);
            let ghost gi = spec_ints_u32(gs@);
            let ghost bi = spec_ints_u32(bs@);
            let mut i: usize = 0;
            while i < pc
                invariant
                    i <= pc,
                    rs@.len() == pc && gs@.len() == pc && bs@.len() == pc,
                    3 * pc <= usize::MAX,
                    ri == spec_ints_u32(rs@) && gi == spec_ints_u32(gs@) && bi == spec_ints_u32(
                        bs@,
                    ),
                    r_min == seq_min(ri) && r_range == spec_range(ri),
                    g_min == seq_min(gi) && g_range == spec_range(gi),
                    b_min == seq_min(bi) && b_range == spec_range(bi),
                    r_max == seq_max(ri) && g_max == seq_max(gi) && b_max == seq_max(bi),
                    out@.len() == 3 * i,
                    forall|k: int|
                        0 <= k < 3 * i ==> #[trigger] out@[k] == spec_norm_seq(
                            if k % 3 == 0 {
                                ri
                            } else if k % 3 == 1 {
                                gi
                            } else {
                                bi
                            },
                            255,
                        )[k / 3] as u8,
                decreases pc - i,
            {
                proof {
                    lemma_seq_min_max_bounds(ri, i as int);
                    lemma_seq_min_max_bounds(gi, i as int);
                    lemma_seq_min_max_bounds(bi, i as int);
                    assert((3 * i) % 3 == 0 && (3 * i) / 3 == i as int);
                    assert((3 * i + 1) % 3 == 1 && (3 * i + 1) / 3 == i as int);
                    assert((3 * i + 2) % 3 == 2 && (3 * i + 2) / 3 == i as int);
                }
                let rv = normalize_u32_to_u8(rs[i], r_min, r_range);
                let gv = normalize_u32_to_u8(gs[i], g_min, g_range);
                let bv = normalize_u32_to_u8(bs[i], b_min, b_range);
                out.push(rv);
                out.push(gv);
                out.push(bv);
                i += 1;
            }
        }
        proof {
            assert(out@ =~= Seq::new(
                (3 * (pc as int)) as nat,
                |k: int| spec_rgb32_norm(fv, is_planar, pc as int, k % 3)[k / 3] as u8,
            ));
        }
        Ok(RgbImage { width: m.cols() as u32, height: m.rows() as u32, data: out })
    }
}

} // verus!
