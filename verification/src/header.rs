//! The 8-byte container header: the ASCII magic `MSU1` followed by a
//! little-endian 32-bit field.
//!
//! On read the field is the loop point: `0` means the stream has none
//! and plays once; any other value is the frame offset where cyclic
//! playback begins.  On write the field instead carries the fade
//! length in frames (or `0` when the source had no loop point); the
//! output format deliberately repurposes the slot.

use crate::PcmError;
use vstd::prelude::*;
use vstd::arithmetic::div_mod::{lemma_div_denominator, lemma_fundamental_div_mod};

verus! {

/// The unsigned value of the four little-endian bytes of `s`.
pub open spec fn le32(s: Seq<u8>) -> int {
    s[0] + 256 * s[1] + 65536 * s[2] + 16777216 * s[3]
}

/// Whether `s` opens with the ASCII magic `MSU1`.
pub open spec fn has_magic(s: Seq<u8>) -> bool {
    &&& s.len() >= 4
    &&& s[0] == 77u8
    &&& s[1] == 83u8
    &&& s[2] == 85u8
    &&& s[3] == 49u8
}

/// Reads the container header from the front of `h`.
///
/// `Ok(None)` is a stream without a loop point (field `0`),
/// `Ok(Some(l))` one that loops at frame offset `l != 0`.  The match
/// arms below are mutually exclusive, so each condition holds exactly
/// when its arm is returned.
pub fn parse_header(h: &[u8]) -> (r: Result<Option<u32>, PcmError>)
    ensures
        match r {
            Result::Err(PcmError::TruncatedHeader) => h@.len() < 8,
            Result::Err(PcmError::BadMagic) => h@.len() >= 8 && !has_magic(h@),
            Result::Ok(lp) => {
                &&& h@.len() >= 8
                &&& has_magic(h@)
                &&& le32(h@.subrange(4, 8)) == (match lp {
                    Option::Some(l) => l as int,
                    Option::None => 0,
                })
                &&& (lp matches Option::Some(l) ==> l != 0)
            },
            Result::Err(_) => false,
        },
{
    if h.len() < 8 {
        return Result::Err(PcmError::TruncatedHeader);
    }
    if !(h[0] == 77 && h[1] == 83 && h[2] == 85 && h[3] == 49) {
        return Result::Err(PcmError::BadMagic);
    }
    let v: u32 = (h[4] as u32) + 256 * (h[5] as u32) + 65536 * (h[6] as u32) + 16777216 * (
    h[7] as u32);
    if v == 0 {
        Result::Ok(Option::None)
    } else {
        Result::Ok(Option::Some(v))
    }
}

/// Builds the 8-byte output header: the magic and `field` in
/// little-endian order.
pub fn encode_header(field: u32) -> (r: Vec<u8>)
    ensures
        r@.len() == 8,
        has_magic(r@),
        le32(r@.subrange(4, 8)) == field,
{
    let mut r: Vec<u8> = Vec::new();
    r.push(77);
    r.push(83);
    r.push(85);
    r.push(49);
    r.push((field % 256) as u8);
    r.push(((field / 256) % 256) as u8);
    r.push(((field / 65536) % 256) as u8);
    r.push((field / 16777216) as u8);
    proof {
        let x = field as int;
        lemma_fundamental_div_mod(x, 256);
        lemma_fundamental_div_mod(x / 256, 256);
        lemma_fundamental_div_mod(x / 65536, 256);
        lemma_div_denominator(x, 256, 256);
        lemma_div_denominator(x, 65536, 256);
        assert(le32(r@.subrange(4, 8)) == field);
    }
    r
}

} // verus!
