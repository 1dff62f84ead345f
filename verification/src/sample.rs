//! Decoding, fixed-point gain scaling and re-encoding of individual
//! 16-bit little-endian PCM samples.
//!
//! A gain multiplier is a fixed-point fraction with 16 fractional bits:
//! the value `g` stands for the factor `g / 65536`.  Scaling a sample
//! adds a dither offset before the final floor division so that the
//! quantization error is decorrelated from the signal.

use vstd::prelude::*;
use vstd::arithmetic::div_mod::{
    lemma_fundamental_div_mod_converse_mod, lemma_hoist_over_denominator, lemma_small_mod,
};

verus! {

/// Largest gain multiplier a fade may use: one step below unity
/// (65536 would be full scale, which the envelope never reaches).
pub const MAX_GAIN: i32 = 65535;

/// Magnitude bound of a dither offset: half a bit at the 16-bit
/// fractional scale.
pub const DITHER_BOUND: i32 = 32768;

/// The signed 16-bit value stored little-endian in the two bytes
/// `b0` (low) and `b1` (high).
pub open spec fn le16(b0: u8, b1: u8) -> int {
    if b0 + 256 * b1 >= 32768 {
        b0 + 256 * b1 - 65536
    } else {
        b0 + 256 * b1
    }
}

/// Low byte of the little-endian encoding of the 16-bit value `v`
/// (two's complement for negative `v`).
pub open spec fn enc_lo(v: int) -> u8 {
    (((v % 65536) % 256) as u8)
}

/// High byte of the little-endian encoding of the 16-bit value `v`.
pub open spec fn enc_hi(v: int) -> u8 {
    (((v % 65536) / 256) as u8)
}

/// Both bytes of the little-endian encoding of the 16-bit value `v`.
pub open spec fn enc16(v: int) -> Seq<u8> {
    seq![enc_lo(v), enc_hi(v)]
}

/// A dither offset drawn for one channel of one frame.
pub open spec fn dither_ok(d: int) -> bool {
    -DITHER_BOUND <= d <= DITHER_BOUND
}

/// Sample `s` scaled by the fixed-point gain `g / 65536` with dither
/// offset `d` added before the floor division.
pub open spec fn scaled(s: int, g: int, d: int) -> int {
    (s * g + d) / 65536
}

/// Decodes the signed 16-bit sample stored little-endian in `b0`, `b1`.
pub fn decode_sample(b0: u8, b1: u8) -> (s: i32)
    ensures
        s == le16(b0, b1),
        -32768 <= s <= 32767,
{
    let u: u32 = (b0 as u32) + 256 * (b1 as u32);
    if u >= 32768 {
        (u as i32) - 65536
    } else {
        u as i32
    }
}

/// Encodes the 16-bit value `v` as its two little-endian bytes.
pub fn encode_sample(v: i32) -> (r: (u8, u8))
    requires
        -32768 <= v <= 32767,
    ensures
        r.0 == enc_lo(v as int),
        r.1 == enc_hi(v as int),
{
    let u: u32 = if v >= 0 {
        v as u32
    } else {
        (v + 65536) as u32
    };
    proof {
        if v >= 0 {
            lemma_small_mod(v as nat, 65536);
        } else {
            lemma_fundamental_div_mod_converse_mod(v as int, 65536, -1, v + 65536);
        }
        assert(u == v as int % 65536);
        lemma_small_mod((u % 256) as nat, 256);
    }
    ((u % 256) as u8, (u / 256) as u8)
}

/// Applies the fixed-point gain `g / 65536` to sample `s` with dither
/// offset `d`: the exact floor of `(s * g + d) / 65536`.
pub fn scale_sample(s: i32, g: i32, d: i32) -> (v: i32)
    requires
        -32768 <= s <= 32767,
        0 <= g <= MAX_GAIN,
        dither_ok(d as int),
    ensures
        v == scaled(s as int, g as int, d as int),
        -32768 <= v <= 32767,
{
    proof {
        assert(-2147450880 <= (s as int) * (g as int) <= 2147385345) by (nonlinear_arith)
            requires
                -32768 <= s <= 32767,
                0 <= g <= 65535,
        ;
    }
    let sum: i64 = (s as i64) * (g as i64) + (d as i64);
    let biased: u64 = (sum + 2147483648) as u64;
    let q: u64 = biased / 65536;
    proof {
        lemma_hoist_over_denominator(sum as int, 32768, 65536);
        assert(biased == sum + 32768 * 65536);
        assert(q == sum as int / 65536 + 32768);
    }
    (q as i32) - 32768
}

} // verus!
