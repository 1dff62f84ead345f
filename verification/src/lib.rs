//! Reversal of MSU-1 formatted 16-bit stereo PCM streams.
//!
//! The library turns the payload of an MSU-1 `.pcm` file into a
//! time-reversed version of itself: the stream is split into 4-byte
//! stereo sample frames which are emitted last-to-first.  When the
//! source carries a loop point, a fade-in envelope with dither noise is
//! applied to the head of the reversed stream so playback starts from
//! near-silence instead of an abrupt discontinuity.

pub mod fade;
pub mod frames;
pub mod header;
pub mod sample;

use crate::fade::{fade_ok, reversed_with_fadein};
use crate::frames::{frame_reversal, reverse_frames};
use crate::header::{encode_header, has_magic, le32, parse_header};
use crate::sample::MAX_GAIN;
use vstd::prelude::*;
use vstd::slice::slice_subrange;

verus! {

/// The fatal input conditions a conversion can report.  Every variant
/// is a hard stop: no partial output is ever produced for them.
#[derive(Clone, Copy, Debug, PartialEq, Eq, Structural)]
pub enum PcmError {
    /// Fewer than eight bytes where the header should be.
    TruncatedHeader,
    /// The first four bytes are not the ASCII magic `MSU1`.
    BadMagic,
    /// The payload length is not a multiple of the 4-byte frame size.
    UnalignedPayload,
    /// The loop point lies beyond the end of the payload.
    LoopPastEnd,
}

/// The little-endian 32-bit field of the container header in `input`:
/// the loop point on read.
pub open spec fn loop_field(input: Seq<u8>) -> int {
    le32(input.subrange(4, 8))
}

/// Converts one whole MSU-1 file image into its reversed counterpart.
///
/// The result is a complete output image: the magic, the repurposed
/// 32-bit field (`0` without a loop point, the fade length in frames
/// with one), and the reversed payload.  With a loop point the bytes
/// before it are dropped and the first `gains.len()` output frames are
/// faded; without one the payload is reversed verbatim, bypassing fade
/// and dither entirely.  The match arms below are mutually exclusive,
/// so each input condition holds exactly when its arm is returned.
pub fn convert(input: &[u8], gains: &[i32], rng: &mut rand::rngs::ThreadRng) -> (r: Result<
    Vec<u8>,
    PcmError,
>)
    requires
        gains@.len() <= u32::MAX,
        forall|t: int| 0 <= t < gains@.len() ==> 0 <= #[trigger] gains@[t] <= MAX_GAIN,
    ensures
        match r {
            Result::Err(PcmError::TruncatedHeader) => input@.len() < 8,
            Result::Err(PcmError::BadMagic) => input@.len() >= 8 && !has_magic(input@),
            Result::Err(PcmError::UnalignedPayload) => input@.len() >= 8 && has_magic(input@) && (
            input@.len() - 8) % 4 != 0,
            Result::Err(PcmError::LoopPastEnd) => input@.len() >= 8 && has_magic(input@) && (
            input@.len() - 8) % 4 == 0 && loop_field(input@) != 0 && 4 * loop_field(input@)
                > input@.len() - 8,
            Result::Ok(out) => {
                let lp = loop_field(input@);
                let payload = input@.skip(8);
                &&& input@.len() >= 8
                &&& has_magic(input@)
                &&& payload.len() % 4 == 0
                &&& (lp == 0 || 4 * lp <= payload.len())
                &&& out@.len() == 8 + payload.len() - 4 * lp
                &&& has_magic(out@)
                &&& le32(out@.subrange(4, 8)) == (if lp == 0 {
                    0int
                } else {
                    gains@.len() as int
                })
                &&& (lp == 0 ==> out@.skip(8) == frame_reversal(payload))
                &&& (lp != 0 ==> fade_ok(out@.skip(8), payload.skip(4 * lp), gains@))
            },
        },
{
    let lp_opt = match parse_header(input) {
        Result::Err(e) => {
            return Result::Err(e);
        },
        Result::Ok(o) => o,
    };
    let payload_len = input.len() - 8;
    if payload_len % 4 != 0 {
        return Result::Err(PcmError::UnalignedPayload);
    }
    match lp_opt {
        Option::None => {
            let payload = slice_subrange(input, 8, input.len());
            proof {
                assert(payload@ =~= input@.skip(8));
            }
            let mut body = reverse_frames(payload);
            let mut out = encode_header(0);
            let ghost head = out@;
            out.append(&mut body);
            proof {
                assert(out@.skip(8) =~= frame_reversal(input@.skip(8)));
                assert(out@.subrange(4, 8) =~= head.subrange(4, 8));
                assert(has_magic(out@));
            }
            Result::Ok(out)
        },
        Option::Some(lp) => {
            if (lp as u64) * 4 > payload_len as u64 {
                return Result::Err(PcmError::LoopPastEnd);
            }
            let start = 8 + (lp as usize) * 4;
            let tail = slice_subrange(input, start, input.len());
            proof {
                assert(tail@ =~= input@.skip(8).skip(4 * (lp as int)));
                vstd::arithmetic::div_mod::lemma_fundamental_div_mod(input@.len() - 8, 4);
                vstd::arithmetic::div_mod::lemma_mod_multiples_basic(
                    (input@.len() - 8) / 4 - lp,
                    4,
                );
                assert(tail@.len() % 4 == 0);
            }
            let mut body = reversed_with_fadein(tail, gains, rng);
            let ghost bodyv = body@;
            let mut out = encode_header(gains.len() as u32);
            let ghost head = out@;
            out.append(&mut body);
            proof {
                assert(out@.skip(8) =~= bodyv);
                assert(fade_ok(out@.skip(8), input@.skip(8).skip(4 * loop_field(input@)), gains@));
                assert(out@.subrange(4, 8) =~= head.subrange(4, 8));
                assert(has_magic(out@));
            }
            Result::Ok(out)
        },
    }
}

} // verus!
