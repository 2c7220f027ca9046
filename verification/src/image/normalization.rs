//! Shared numeric helpers: little-endian sample parsing, minimum/maximum
//! scans, and linear rescaling of an arbitrary range onto a small one.

use vstd::prelude::*;

use vstd::arithmetic::div_mod::{lemma_div_is_ordered, lemma_div_multiples_vanish};
use vstd::arithmetic::mul::lemma_mul_inequality;

verus! {

/// The value of a two-byte little-endian sample.
pub open spec fn spec_u16_le(b0: u8, b1: u8) -> int {
    b0 + 256 * b1
}

/// The value of a four-byte little-endian sample.
pub open spec fn spec_u32_le(b0: u8, b1: u8, b2: u8, b3: u8) -> int {
    b0 + 256 * b1 + 65536 * b2 + 16777216 * b3
}

/// The 16-bit samples held by a byte sequence, in order.
pub open spec fn spec_samples16(d: Seq<u8>) -> Seq<u16> {
    Seq::new(d.len() / 2, |i: int| spec_u16_le(d[2 * i], d[2 * i + 1]) as u16)
}

/// The 32-bit samples held by a byte sequence, in order.
pub open spec fn spec_samples32(d: Seq<u8>) -> Seq<u32> {
    Seq::new(d.len() / 4, |i: int| spec_u32_le(d[4 * i], d[4 * i + 1], d[4 * i + 2], d[4 * i + 3]) as u32)
}

/// The least element of a non-empty sequence.
pub open spec fn seq_min(s: Seq<int>) -> int
    recommends
        s.len() > 0,
    decreases s.len(),
{
    if s.len() <= 1 {
        s[0]
    } else {
        let m = seq_min(s.drop_last());
        if s.last() < m {
            s.last()
        } else {
            m
        }
    }
}

/// The greatest element of a non-empty sequence.
pub open spec fn seq_max(s: Seq<int>) -> int
    recommends
        s.len() > 0,
    decreases s.len(),
{
    if s.len() <= 1 {
        s[0]
    } else {
        let m = seq_max(s.drop_last());
        if s.last() > m {
            s.last()
        } else {
            m
        }
    }
}

/// The auto-window width of a sequence: the spread of its values, or one for
/// a degenerate single-level sequence.
pub open spec fn spec_range(s: Seq<int>) -> int {
    if seq_max(s) > seq_min(s) {
        seq_max(s) - seq_min(s)
    } else {
        1
    }
}

/// `v` mapped linearly from `[lo, lo + range]` onto `[0, scale]`, truncated.
pub open spec fn spec_norm_scale(v: int, lo: int, range: int, scale: int) -> int {
    ((v - lo) * scale) / range
}

/// Every element of `s` normalised onto `[0, scale]` by the sequence's own
/// minimum and spread.
pub open spec fn spec_norm_seq(s: Seq<int>, scale: int) -> Seq<int> {
    s.map_values(|v: int| spec_norm_scale(v, seq_min(s), spec_range(s), scale))
}

/// A sequence of unsigned samples as mathematical integers.
pub open spec fn spec_ints_u32(s: Seq<u32>) -> Seq<int> {
    s.map_values(|v: u32| v as int)
}

/// A sequence of signed samples as mathematical integers.
pub open spec fn spec_ints_i64(s: Seq<i64>) -> Seq<int> {
    s.map_values(|v: i64| v as int)
}

pub proof fn lemma_seq_min_max_bounds(s: Seq<int>, i: int)
    requires
        0 <= i < s.len(),
    ensures
        seq_min(s) <= s[i],
        s[i] <= seq_max(s),
    decreases s.len(),
{
    if s.len() > 1 {
        if i < s.len() - 1 {
            lemma_seq_min_max_bounds(s.drop_last(), i);
        }
    }
}

/// The least and the greatest element are elements.
pub proof fn lemma_seq_min_max_mem(s: Seq<int>)
    requires
        s.len() > 0,
    ensures
        s.contains(seq_min(s)),
        s.contains(seq_max(s)),
    decreases s.len(),
{
    if s.len() > 1 {
        lemma_seq_min_max_mem(s.drop_last());
        assert(forall|i: int| 0 <= i < s.len() - 1 ==> s.drop_last()[i] == s[i]);
    }
}

/// The normalised value stays within `[0, scale]`.
pub proof fn lemma_norm_scale_bounds(v: int, lo: int, range: int, scale: int)
    requires
        lo <= v,
        v - lo <= range,
        1 <= range,
        0 <= scale,
    ensures
        0 <= spec_norm_scale(v, lo, range, scale) <= scale,
{
    let d = v - lo;
    lemma_mul_inequality(d, range, scale);
    lemma_div_is_ordered(d * scale, range * scale, range);
    lemma_div_multiples_vanish(scale, range);
    assert(range * scale == scale * range) by (nonlinear_arith);
    assert(d * scale >= 0) by (nonlinear_arith)
        requires
            d >= 0,
            scale >= 0,
    ;
}

/// Find the least and the greatest value in one pass.
pub fn find_min_max(values: &Vec<u32>) -> (r: (u32, u32))
    requires
        values@.len() > 0,
    ensures
        r.0 == seq_min(spec_ints_u32(values@)),
        r.1 == seq_max(spec_ints_u32(values@)),
{
    let ghost s = spec_ints_u32(values@);
    let mut lo = values[0];
    let mut hi = values[0];
    let n = values.len();
    let mut i: usize = 1;
    while i < n
        invariant
            1 <= i <= n,
            n == values@.len(),
            s == spec_ints_u32(values@),
            lo == seq_min(s.take(i as int)),
            hi == seq_max(s.take(i as int)),
        decreases n - i,
    {
        proof {
            assert(s.take(i + 1).drop_last() =~= s.take(i as int));
            assert(s.take(i + 1).last() == s[i as int]);
        }
        let v = values[i];
        if v < lo {
            lo = v;
        }
        if v > hi {
            hi = v;
        }
        i += 1;
    }
    proof {
        assert(s.take(n as int) =~= s);
    }
    (lo, hi)
}

/// Find the least and the greatest signed value in one pass.
pub fn find_min_max_i64(values: &Vec<i64>) -> (r: (i64, i64))
    requires
        values@.len() > 0,
    ensures
        r.0 == seq_min(spec_ints_i64(values@)),
        r.1 == seq_max(spec_ints_i64(values@)),
{
    let ghost s = spec_ints_i64(values@);
    let mut lo = values[0];
    let mut hi = values[0];
    let n = values.len();
    let mut i: usize = 1;
    while i < n
        invariant
            1 <= i <= n,
            n == values@.len(),
            s == spec_ints_i64(values@),
            lo == seq_min(s.take(i as int)),
            hi == seq_max(s.take(i as int)),
        decreases n - i,
    {
        proof {
            assert(s.take(i + 1).drop_last() =~= s.take(i as int));
            assert(s.take(i + 1).last() == s[i as int]);
        }
        let v = values[i];
        if v < lo {
            lo = v;
        }
        if v > hi {
            hi = v;
        }
        i += 1;
    }
    proof {
        assert(s.take(n as int) =~= s);
    }
    (lo, hi)
}

/// Normalise one sample from `[min, min + range]` onto `[0, 255]`.
pub fn normalize_u32_to_u8(value: u32, min: u32, range: u32) -> (r: u8)
    requires
        min <= value,
        value - min <= range,
        1 <= range,
    ensures
        r == spec_norm_scale(value as int, min as int, range as int, 255),
{
    proof {
        lemma_norm_scale_bounds(value as int, min as int, range as int, 255);
    }
    let d = (value - min) as u64;
    ((d * 255) / (range as u64)) as u8
}

/// Parse every two-byte little-endian sample.
pub fn parse_samples16(d: &Vec<u8>) -> (r: Vec<u16>)
    requires
        d@.len() % 2 == 0,
    ensures
        r@ == spec_samples16(d@),
{
    let n = d.len() / 2;
    let mut out: Vec<u16> = Vec::new();
    let mut i: usize = 0;
    while i < n
        invariant
            i <= n,
            n == d@.len() / 2,
            d@.len() % 2 == 0,
            d@.len() <= usize::MAX,
            out@.len() == i,
            forall|j: int| 0 <= j < i ==> out@[j] == spec_samples16(d@)[j],
        decreases n - i,
    {
        proof {
            assert(2 * i + 1 < d@.len());
        }
        let b0 = d[2 * i];
        let b1 = d[2 * i + 1];
        let v: u16 = (b0 as u16) + 256 * (b1 as u16);
        out.push(v);
        i += 1;
    }
    proof {
        assert(out@ =~= spec_samples16(d@));
    }
    out
}

/// Parse every four-byte little-endian sample.
pub fn parse_samples32(d: &Vec<u8>) -> (r: Vec<u32>)
    requires
        d@.len() % 4 == 0,
    ensures
        r@ == spec_samples32(d@),
{
    let n = d.len() / 4;
    let mut out: Vec<u32> = Vec::new();
    let mut i: usize = 0;
    while i < n
        invariant
            i <= n,
            n == d@.len() / 4,
            d@.len() % 4 == 0,
            d@.len() <= usize::MAX,
            out@.len() == i,
            forall|j: int| 0 <= j < i ==> out@[j] == spec_samples32(d@)[j],
        decreases n - i,
    {
        proof {
            assert(4 * i + 3 < d@.len());
        }
        let b0 = d[4 * i];
        let b1 = d[4 * i + 1];
        let b2 = d[4 * i + 2];
        let b3 = d[4 * i + 3];
        let v: u32 = (b0 as u32) + 256 * (b1 as u32) + 65536 * (b2 as u32) + 16777216 * (b3
            as u32);
        out.push(v);
        i += 1;
    }
    proof {
        assert(out@ =~= spec_samples32(d@));
    }
    out
}

} // verus!
