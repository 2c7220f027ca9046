//! YCbCr conversion: upsample 4:2:2 chroma-subsampled data to full
//! resolution, then apply the fixed ITU-R BT.601 full-range colour matrix.
//! Only the first frame of a multi-frame buffer takes part.
//!
//! The matrix is applied in exact fixed-point arithmetic: the real
//! coefficients are carried as integer numerators over a power-of-ten
//! denominator, and the quotient is clamped onto `[0, 255]`, which agrees
//! with clamping and truncating the real-valued result.

use vstd::prelude::*;

use crate::error::ConvertError;
use crate::image::rgb::{deplanarize8, spec_deplanarize3};
use crate::image::{take_prefix, RgbImage};
use crate::metadata::DicomMetadata;

verus! {

/// `num / den` clamped onto `[0, 255]`; the exact value of one colour
/// channel whose real-valued transform is `num / den`.
pub open spec fn spec_channel8(num: int, den: int) -> int {
    if num <= 0 {
        0
    } else if num / den >= 255 {
        255
    } else {
        num / den
    }
}

/// BT.601 full-range red: `Y + 1.402 * (Cr - 128)`.
pub open spec fn spec_bt601_r(y: int, cb: int, cr: int) -> int {
    spec_channel8(1000 * y + 1402 * (cr - 128), 1000)
}

/// BT.601 full-range green: `Y - 0.344136 * (Cb - 128) - 0.714136 * (Cr - 128)`.
pub open spec fn spec_bt601_g(y: int, cb: int, cr: int) -> int {
    spec_channel8(1000000 * y - 344136 * (cb - 128) - 714136 * (cr - 128), 1000000)
}

/// BT.601 full-range blue: `Y + 1.772 * (Cb - 128)`.
pub open spec fn spec_bt601_b(y: int, cb: int, cr: int) -> int {
    spec_channel8(1000 * y + 1772 * (cb - 128), 1000)
}

/// The colour matrix applied to every triple of an interleaved YCbCr
/// sequence.
pub open spec fn spec_bt601_rgb(t: Seq<u8>) -> Seq<u8> {
    Seq::new(
        t.len(),
        |k: int|
            {
                let y = t[3 * (k / 3)] as int;
                let cb = t[3 * (k / 3) + 1] as int;
                let cr = t[3 * (k / 3) + 2] as int;
                (if k % 3 == 0 {
                    spec_bt601_r(y, cb, cr)
                } else if k % 3 == 1 {
                    spec_bt601_g(y, cb, cr)
                } else {
                    spec_bt601_b(y, cb, cr)
                }) as u8
            },
    )
}

/// Interleaved 4:2:2 data upsampled to full resolution.  The source is rows
/// of `2 * cols` bytes, each a run of four-byte groups `[Y0, Y1, Cb, Cr]`
/// covering two horizontally adjacent pixels: both share the group's chroma
/// and keep their own luma.
pub open spec fn spec_upsample_interleaved(d: Seq<u8>, rows: int, cols: int) -> Seq<u8> {
    Seq::new(
        (3 * (rows * cols)) as nat,
        |k: int|
            {
                let i = k / 3;
                let y = i / cols;
                let x = i % cols;
                let g = 2 * cols * y + 4 * (x / 2);
                if k % 3 == 0 {
                    d[g + x % 2]
                } else if k % 3 == 1 {
                    d[g + 2]
                } else {
                    d[g + 3]
                }
            },
    )
}

/// Planar 4:2:2 data upsampled to full resolution: a full luma plane
/// followed by half-width Cb and Cr planes; each output pixel reads its
/// chroma from column `x / 2` of its row.
pub open spec fn spec_upsample_planar(d: Seq<u8>, rows: int, cols: int) -> Seq<u8> {
    Seq::new(
        (3 * (rows * cols)) as nat,
        |k: int|
            {
                let pc = rows * cols;
                let i = k / 3;
                let y = i / cols;
                let x = i % cols;
                if k % 3 == 0 {
                    d[i]
                } else if k % 3 == 1 {
                    d[pc + y * (cols / 2) + x / 2]
                } else {
                    d[pc + pc / 2 + y * (cols / 2) + x / 2]
                }
            },
    )
}

/// The first frame of the buffer and whether it is 4:2:2-subsampled, or the
/// length failure.  A multi-frame buffer must match full-resolution or
/// subsampled framing exactly; a single frame is subsampled exactly when it
/// holds two bytes per pixel.
pub open spec fn spec_ycbcr_frame(d: Seq<u8>, pc: int, frames: int) -> Result<
    (Seq<u8>, bool),
    ConvertError,
> {
    if frames > 1 {
        if d.len() == 3 * pc * frames {
            Ok((d.take(3 * pc), false))
        } else if d.len() == 2 * pc * frames {
            Ok((d.take(2 * pc), true))
        } else {
            Err(ConvertError::InvalidBufferLength)
        }
    } else {
        if d.len() == 2 * pc {
            Ok((d, true))
        } else if d.len() == 3 * pc {
            Ok((d, false))
        } else {
            Err(ConvertError::InvalidBufferLength)
        }
    }
}

/// The whole outcome of YCbCr conversion.
pub open spec fn spec_convert_ycbcr(m: DicomMetadata) -> Result<Seq<u8>, ConvertError> {
    let bits = m.bit_depth.allocated;
    let d = m.spec_pixel_bytes();
    let rows = m.dimensions.rows as int;
    let cols = m.dimensions.cols as int;
    let pc = rows * cols;
    if bits != 8 {
        Err(ConvertError::UnsupportedBitDepth(bits))
    } else if !(m.planar_configuration is None || m.planar_configuration == Some(0u16)
        || m.planar_configuration == Some(1u16)) {
        Err(ConvertError::UnsupportedPlanarConfiguration(m.planar_configuration->0))
    } else {
        match spec_ycbcr_frame(d, pc, m.number_of_frames as int) {
            Err(e) => Err(e),
            Ok((frame, subsampled)) => {
                let planar = m.planar_configuration == Some(1u16);
                if subsampled && cols % 2 != 0 && pc > 0 {
                    Err(ConvertError::InvalidBufferLength)
                } else {
                    let triples = if subsampled {
                        if planar {
                            spec_upsample_planar(frame, rows, cols)
                        } else {
                            spec_upsample_interleaved(frame, rows, cols)
                        }
                    } else {
                        if planar {
                            spec_deplanarize3(frame, pc)
                        } else {
                            frame
                        }
                    };
                    Ok(spec_bt601_rgb(triples))
                }
            },
        }
    }
}

/// Converting a multi-frame buffer equals converting its first frame alone:
/// the trailing frames never reach the raster.
pub proof fn lemma_ycbcr_first_frame(m1: DicomMetadata, m2: DicomMetadata)
    requires
        m1.bit_depth.allocated == 8,
        m2.bit_depth.allocated == 8,
        m1.dimensions == m2.dimensions,
        m1.dimensions.rows > 0,
        m1.dimensions.cols > 0,
        m1.planar_configuration == m2.planar_configuration,
        m1.number_of_frames > 1,
        m2.number_of_frames == 1,
        ({
            let pc = m1.dimensions.rows as int * m1.dimensions.cols as int;
            let n = m1.number_of_frames as int;
            ||| (m1.spec_pixel_bytes().len() == 3 * pc * n && m2.spec_pixel_bytes()
                == m1.spec_pixel_bytes().take(3 * pc))
            ||| (m1.spec_pixel_bytes().len() == 2 * pc * n && m2.spec_pixel_bytes()
                == m1.spec_pixel_bytes().take(2 * pc))
        }),
    ensures
        spec_convert_ycbcr(m1) == spec_convert_ycbcr(m2),
{
    let pc = m1.dimensions.rows as int * m1.dimensions.cols as int;
    let n = m1.number_of_frames as int;
    assert(pc > 0) by (nonlinear_arith)
        requires
            m1.dimensions.rows as int >= 1,
            m1.dimensions.cols as int >= 1,
            pc == m1.dimensions.rows as int * m1.dimensions.cols as int,
    ;
    if m1.spec_pixel_bytes().len() == 3 * pc * n {
        assert(3 * pc * n != 2 * pc * n && 3 * pc * n >= 3 * pc) by (nonlinear_arith)
            requires
                pc > 0,
                n > 1,
        ;
        assert(m2.spec_pixel_bytes().len() == 3 * pc);
        assert(m2.spec_pixel_bytes().take(3 * pc) =~= m2.spec_pixel_bytes());
    } else {
        assert(2 * pc * n >= 2 * pc) by (nonlinear_arith)
            requires
                pc > 0,
                n > 1,
        ;
        assert(m2.spec_pixel_bytes().len() == 2 * pc);
        assert(m2.spec_pixel_bytes().take(2 * pc) =~= m2.spec_pixel_bytes());
    }
}

/// One channel of the fixed-point matrix: the clamped quotient.
fn channel8(num: i64, den: i64) -> (r: u8)
    requires
        1 <= den,
        num <= 0x4000_0000_0000_0000,
    ensures
        r == spec_channel8(num as int, den as int),
{
    if num <= 0 {
        0
    } else {
        let q = (num as u64) / (den as u64);
        if q >= 255 {
            255
        } else {
            q as u8
        }
    }
}

/// Apply the BT.601 matrix to one pixel.
fn bt601_pixel(y: u8, cb: u8, cr: u8) -> (r: (u8, u8, u8))
    ensures
        r.0 == spec_bt601_r(y as int, cb as int, cr as int),
        r.1 == spec_bt601_g(y as int, cb as int, cr as int),
        r.2 == spec_bt601_b(y as int, cb as int, cr as int),
{
    let yi = y as i64;
    let cbd = (cb as i64) - 128;
    let crd = (cr as i64) - 128;
    let rv = channel8(1000 * yi + 1402 * crd, 1000);
    let gv = channel8(1000000 * yi - 344136 * cbd - 714136 * crd, 1000000);
    let bv = channel8(1000 * yi + 1772 * cbd, 1000);
    (rv, gv, bv)
}

/// Upsample interleaved 4:2:2 rows to a full-resolution YCbCr sequence.
fn upsample_interleaved(frame: &Vec<u8>, rows: usize, cols: usize) -> (r: Vec<u8>)
    requires
        frame@.len() == 2 * (rows * cols),
        cols % 2 == 0,
        rows * cols <= 0xfffe_0001,
    ensures
        r@ == spec_upsample_interleaved(frame@, rows as int, cols as int),
{
    let ghost sp = spec_upsample_interleaved(frame@, rows as int, cols as int);
    let n = frame.len();
    let pc = rows * cols;
    let mut out: Vec<u8> = Vec::new();
    let mut i: usize = 0;
    while i < pc
        invariant
            i <= pc,
            pc == rows * cols,
            pc <= 0xfffe_0001,
            cols % 2 == 0,
            n == frame@.len() == 2 * pc,
            sp == spec_upsample_interleaved(frame@, rows as int, cols as int),
            out@.len() == 3 * i,
            forall|k: int| 0 <= k < 3 * i ==> #[trigger] out@[k] == sp[k],
        decreases pc - i,
    {
        let y = i / cols;
        let x = i % cols;
        proof {
            assert(cols > 0);
            vstd::arithmetic::div_mod::lemma_fundamental_div_mod(i as int, cols as int);
            assert(y < rows) by (nonlinear_arith)
                requires
                    cols as int * (y as int) <= i as int,
                    i < pc,
                    pc == rows * cols,
                    cols > 0,
            ;
            assert(cols as int <= pc as int) by (nonlinear_arith)
                requires
                    rows as int >= 1,
                    cols as int >= 0,
                    pc == rows * cols,
            ;
            let ch = cols as int / 2;
            let xh = x as int / 2;
            vstd::arithmetic::div_mod::lemma_fundamental_div_mod(cols as int, 2);
            vstd::arithmetic::div_mod::lemma_div_is_ordered(x as int, 2 * ch - 1, 2);
            vstd::arithmetic::div_mod::lemma_fundamental_div_mod(2 * ch - 1, 2);
            assert(xh <= ch - 1);
            assert(2 * cols * y + 4 * (x as int / 2) + 3 < 2 * pc) by (nonlinear_arith)
                requires
                    0 <= y,
                    y + 1 <= rows as int,
                    0 <= x as int / 2,
                    x as int / 2 <= cols as int / 2 - 1,
                    cols == 2 * (cols as int / 2),
                    cols >= 1,
                    pc == rows * cols,
            ;
        }
        let g = 2 * cols * y + 4 * (x / 2);
        out.push(frame[g + x % 2]);
        out.push(frame[g + 2]);
        out.push(frame[g + 3]);
        proof {
            assert forall|k: int| 0 <= k < 3 * (i + 1) implies #[trigger] out@[k] == sp[k] by {
                if k == 3 * i {
                    assert(k % 3 == 0 && k / 3 == i as int);
                } else if k == 3 * i + 1 {
                    assert(k % 3 == 1 && k / 3 == i as int);
                } else if k == 3 * i + 2 {
                    assert(k % 3 == 2 && k / 3 == i as int);
                }
            }
        }
        i += 1;
    }
    proof {
        assert(out@ =~= sp);
    }
    out
}

/// Upsample a planar 4:2:2 buffer to a full-resolution YCbCr sequence.
fn upsample_planar(frame: &Vec<u8>, rows: usize, cols: usize) -> (r: Vec<u8>)
    requires
        frame@.len() == 2 * (rows * cols),
        cols % 2 == 0,
        rows * cols <= 0xfffe_0001,
    ensures
        r@ == spec_upsample_planar(frame@, rows as int, cols as int),
{
    let ghost sp = spec_upsample_planar(frame@, rows as int, cols as int);
    let n = frame.len();
    let pc = rows * cols;
    let mut out: Vec<u8> = Vec::new();
    let mut i: usize = 0;
    while i < pc
        invariant
            i <= pc,
            pc == rows * cols,
            pc <= 0xfffe_0001,
            cols % 2 == 0,
            n == frame@.len() == 2 * pc,
            sp == spec_upsample_planar(frame@, rows as int, cols as int),
            out@.len() == 3 * i,
            forall|k: int| 0 <= k < 3 * i ==> #[trigger] out@[k] == sp[k],
        decreases pc - i,
    {
        let y = i / cols;
        let x = i % cols;
        proof {
            assert(cols > 0);
            vstd::arithmetic::div_mod::lemma_fundamental_div_mod(i as int, cols as int);
            assert(y < rows) by (nonlinear_arith)
                requires
                    cols as int * (y as int) <= i as int,
                    i < pc,
                    pc == rows * cols,
                    cols > 0,
            ;
            assert(cols as int <= pc as int) by (nonlinear_arith)
                requires
                    rows as int >= 1,
                    cols as int >= 0,
                    pc == rows * cols,
            ;
            let ch = cols as int / 2;
            let xh = x as int / 2;
            vstd::arithmetic::div_mod::lemma_fundamental_div_mod(cols as int, 2);
            vstd::arithmetic::div_mod::lemma_div_is_ordered(x as int, 2 * ch - 1, 2);
            vstd::arithmetic::div_mod::lemma_fundamental_div_mod(2 * ch - 1, 2);
            assert(xh <= ch - 1);
            assert(pc == 2 * (ch * rows as int) && y as int * ch + xh <= ch * rows as int - 1)
                by (nonlinear_arith)
                requires
                    0 <= y,
                    y + 1 <= rows as int,
                    0 <= xh,
                    xh <= ch - 1,
                    cols == 2 * ch,
                    cols >= 1,
                    pc == rows * cols,
            ;
            vstd::arithmetic::div_mod::lemma_div_multiples_vanish(ch * rows as int, 2);
            assert(pc % 2 == 0 && pc as int / 2 == ch * rows as int) by {
                vstd::arithmetic::div_mod::lemma_fundamental_div_mod(pc as int, 2);
            }
        }
        let c = y * (cols / 2) + x / 2;
        out.push(frame[i]);
        out.push(frame[pc + c]);
        out.push(frame[pc + pc / 2 + c]);
        proof {
            assert forall|k: int| 0 <= k < 3 * (i + 1) implies #[trigger] out@[k] == sp[k] by {
                if k == 3 * i {
                    assert(k % 3 == 0 && k / 3 == i as int);
                } else if k == 3 * i + 1 {
                    assert(k % 3 == 1 && k / 3 == i as int);
                } else if k == 3 * i + 2 {
                    assert(k % 3 == 2 && k / 3 == i as int);
                }
            }
        }
        i += 1;
    }
    proof {
        assert(out@ =~= sp);
    }
    out
}

/// Apply the BT.601 matrix to every pixel of an interleaved YCbCr sequence.
fn bt601_apply(t: &Vec<u8>) -> (r: Vec<u8>)
    requires
        t@.len() % 3 == 0,
    ensures
        r@ == spec_bt601_rgb(t@),
{
    let n = t.len();
    let pc = n / 3;
    let mut out: Vec<u8> = Vec::new();
    let mut i: usize = 0;
    while i < pc
        invariant
            i <= pc,
            pc == t@.len() / 3,
            t@.len() % 3 == 0,
            t@.len() <= usize::MAX,
            out@.len() == 3 * i,
            forall|k: int| 0 <= k < 3 * i ==> #[trigger] out@[k] == spec_bt601_rgb(t@)[k],
        decreases pc - i,
    {
        proof {
            assert(3 * i + 2 < t@.len());
        }
        let (rv, gv, bv) = bt601_pixel(t[3 * i], t[3 * i + 1], t[3 * i + 2]);
        out.push(rv);
        out.push(gv);
        out.push(bv);
        proof {
            assert forall|k: int| 0 <= k < 3 * (i + 1) implies #[trigger] out@[k]
                == spec_bt601_rgb(t@)[k] by {
                if k == 3 * i {
                    assert(k % 3 == 0 && k / 3 == i as int);
                } else if k == 3 * i + 1 {
                    assert(k % 3 == 1 && k / 3 == i as int);
                } else if k == 3 * i + 2 {
                    assert(k % 3 == 2 && k / 3 == i as int);
                }
            }
        }
        i += 1;
    }
    proof {
        assert(out@ =~= spec_bt601_rgb(t@));
    }
    out
}

/// Convert a YCbCr buffer to an interleaved 8-bit RGB raster.
///
/// A multi-frame buffer is cut down to its first frame by whichever framing
/// (full-resolution or 4:2:2) matches its total size.  Subsampled data is
/// upsampled so both pixels of a group share their chroma; full-resolution
/// planar data is rewoven; then the BT.601 matrix maps every pixel to RGB.
pub fn convert_ycbcr(m: &DicomMetadata) -> (r: Result<RgbImage, ConvertError>)
    ensures
        match r {
            Ok(img) => {
                &&& spec_convert_ycbcr(*m) == Ok::<Seq<u8>, ConvertError>(img.data@)
                &&& img.width == m.dimensions.cols
                &&& img.height == m.dimensions.rows
                &&& img.wf()
            },
            Err(e) => spec_convert_ycbcr(*m) == Err::<Seq<u8>, ConvertError>(e),
        },
{
    let bits = m.bits_allocated();
    let d = m.pixel_data();
    let rows = m.dimensions.rows as usize;
    let cols = m.dimensions.cols as usize;
    let pc = m.dimensions.pixel_count();
    proof {
        assert(pc == rows * cols);
        assert(3 * (m.dimensions.rows as int * m.dimensions.cols as int) == m.dimensions.cols
            as int * m.dimensions.rows as int * 3) by (nonlinear_arith);
    }
    if bits != 8 {
        return Err(ConvertError::UnsupportedBitDepth(bits));
    }
    let planar = match m.planar_configuration {
        None => 0u16,
        Some(p) => p,
    };
    if planar > 1 {
        return Err(ConvertError::UnsupportedPlanarConfiguration(planar));
    }
    let frames = m.number_of_frames;
    let len = d.len();
    let mut subsampled: bool = false;
    let frame: Vec<u8>;
    if frames > 1 {
        proof {
            assert((3 * (pc as int)) * (frames as int) <= 0x3_0000_0000_0000_0000 && (2 * (
            pc as int)) * (frames as int) <= 0x3_0000_0000_0000_0000) by (nonlinear_arith)
                requires
                    pc as int <= 0xfffe_0001,
                    frames as int <= 0xffff_ffff,
                    0 <= pc as int,
                    0 <= frames as int,
            ;
        }
        if (len as u128) == 3 * (pc as u128) * (frames as u128) {
            proof {
                assert(3 * (pc as int) * (frames as int) >= 3 * (pc as int)) by (nonlinear_arith)
                    requires
                        frames as int >= 1,
                        pc as int >= 0,
                ;
            }
            frame = take_prefix(d, 3 * pc);
            subsampled = false;
        } else if (len as u128) == 2 * (pc as u128) * (frames as u128) {
            proof {
                assert(2 * (pc as int) * (frames as int) >= 2 * (pc as int)) by (nonlinear_arith)
                    requires
                        frames as int >= 1,
                        pc as int >= 0,
                ;
            }
            frame = take_prefix(d, 2 * pc);
            subsampled = true;
        } else {
            return Err(ConvertError::InvalidBufferLength);
        }
    } else {
        if (len as u64) == 2 * (pc as u64) {
            frame = take_prefix(d, len);
            subsampled = true;
        } else if (len as u64) == 3 * (pc as u64) {
            frame = take_prefix(d, len);
            subsampled = false;
        } else {
            return Err(ConvertError::InvalidBufferLength);
        }
    }
    proof {
        assert(d@.take(len as int) =~= d@);
        assert(spec_ycbcr_frame(d@, pc as int, m.number_of_frames as int) == Ok::<_, ConvertError>(
            (frame@, subsampled),
        ));
    }
    if subsampled && cols % 2 != 0 && pc > 0 {
        return Err(ConvertError::InvalidBufferLength);
    }
    let triples: Vec<u8> = if subsampled {
        if pc == 0 {
            proof {
                assert(frame@.len() == 0);
                assert(spec_upsample_planar(frame@, rows as int, cols as int) =~= frame@);
                assert(spec_upsample_interleaved(frame@, rows as int, cols as int) =~= frame@);
            }
            frame
        } else if planar == 1 {
            upsample_planar(&frame, rows, cols)
        } else {
            upsample_interleaved(&frame, rows, cols)
        }
    } else {
        if planar == 1 {
            deplanarize8(&frame, pc)
        } else {
            frame
        }
    };
    let out = bt601_apply(&triples);
    Ok(RgbImage { width: m.cols() as u32, height: m.rows() as u32, data: out })
}

} // verus!
