//! The fade-in synthesizer: one full pass over the reversed frame
//! order, with a gain envelope and fresh dither noise applied to the
//! leading frames.
//!
//! The caller hands the envelope in as a table of fixed-point gain
//! multipliers, one per faded output frame (frame `j` of the output is
//! scaled by `gains[j] / 65536`).  Dither is drawn per channel per
//! frame from an explicit generator that the caller threads in, so no
//! hidden global randomness is involved.
//!
//! Known quirk, preserved on purpose: both output channels of a faded
//! frame are scaled copies of the frame's first (left) sample, the
//! right channel is not decoded from its own two bytes.  Whether that
//! mono-ized fade window is intended is an open question of the
//! container format; existing consumers may depend on its audible
//! character, so it stays until the format owner rules otherwise.

use crate::frames::{frame_at, frame_count, FrameCursor};
use crate::sample::{
    decode_sample, dither_ok, enc16, encode_sample, le16, scale_sample, scaled, DITHER_BOUND,
    MAX_GAIN,
};
use rand::Rng;
use vstd::prelude::*;
use vstd::arithmetic::div_mod::{lemma_fundamental_div_mod, lemma_small_mod};

verus! {

/// Relies on rand::rngs::ThreadRng being an opaque value type; the
/// library only threads a generator through to the dither draws.
#[verifier::external_type_specification]
#[verifier::external_body]
pub struct ExThreadRng(rand::rngs::ThreadRng);

/// Relies on rand::Rng::gen_range over an inclusive integer range: it
/// panics only when the range is empty, and otherwise returns a value
/// inside the bounds (the uniform integer sampler adds an offset
/// smaller than the range width to the lower bound).
#[verifier::external_body]
fn sample_uniform(rng: &mut rand::rngs::ThreadRng, lo: i32, hi: i32) -> (d: i32)
    requires
        lo <= hi,
    ensures
        lo <= d <= hi,
{
    rng.gen_range(lo..=hi)
}

/// Start of the source bytes of output frame `j`: output frame `j`
/// draws on frame `count - 1 - j` of the buffer `p`.
pub open spec fn src_base(p: Seq<u8>, j: int) -> int {
    4 * (frame_count(p) - 1 - j)
}

/// The left 16-bit sample of the source frame behind output frame `j`.
pub open spec fn left_sample(p: Seq<u8>, j: int) -> int {
    le16(p[src_base(p, j)], p[src_base(p, j) + 1])
}

/// The four bytes of a faded frame: sample `s` scaled by gain `g` with
/// the per-channel dither offsets `dl` and `dr`.  Both channels start
/// from the same (left) sample.
pub open spec fn faded_frame(s: int, g: int, dl: int, dr: int) -> Seq<u8> {
    enc16(scaled(s, g, dl)) + enc16(scaled(s, g, dr))
}

/// Output frame `j` is a faded copy of its source frame for some
/// admissible pair of dither offsets.
pub open spec fn frame_faded_ok(out: Seq<u8>, p: Seq<u8>, g: int, j: int) -> bool {
    exists|dl: int, dr: int|
        #![trigger faded_frame(left_sample(p, j), g, dl, dr)]
        dither_ok(dl) && dither_ok(dr) && frame_at(out, j) == faded_frame(
            left_sample(p, j),
            g,
            dl,
            dr,
        )
}

/// The whole contract of the synthesizer: `out` is one full pass over
/// the reversed frames of `p`, the first `gains.len()` frames faded
/// with their gain entry, every later frame copied verbatim.
pub open spec fn fade_ok(out: Seq<u8>, p: Seq<u8>, gains: Seq<i32>) -> bool {
    &&& out.len() == p.len()
    &&& forall|j: int|
        0 <= j < frame_count(p) && j < gains.len() ==> #[trigger] frame_faded_ok(
            out,
            p,
            gains[j] as int,
            j,
        )
    &&& forall|j: int|
        gains.len() <= j < frame_count(p) ==> #[trigger] frame_at(out, j) == frame_at(
            p,
            frame_count(p) - 1 - j,
        )
}

/// Emits one full pass of `p` in reversed frame order: the first
/// `gains.len()` frames scaled and dithered, the remainder verbatim.
/// The output always has exactly the length of the input, however long
/// the envelope is.
pub fn reversed_with_fadein(p: &[u8], gains: &[i32], rng: &mut rand::rngs::ThreadRng) -> (out: Vec<
    u8,
>)
    requires
        p@.len() % 4 == 0,
        forall|t: int| 0 <= t < gains@.len() ==> 0 <= #[trigger] gains@[t] <= MAX_GAIN,
    ensures
        fade_ok(out@, p@, gains@),
{
    let n = p.len() / 4;
    let mut out: Vec<u8> = Vec::new();
    proof {
        lemma_fundamental_div_mod(p@.len() as int, 4);
    }
    if n == 0 {
        assert(fade_ok(out@, p@, gains@));
        return out;
    }
    let mut cur = FrameCursor::new(n);
    let mut j: usize = 0;
    let ghost mut dithers: Seq<(int, int)> = Seq::empty();
    while j < n
        invariant
            p@.len() % 4 == 0,
            p@.len() == 4 * n,
            p@.len() <= usize::MAX,
            n == frame_count(p@),
            1 <= n,
            j <= n,
            cur.wf(),
            cur.frame_total() == n,
            cur.drawn_count() == j,
            out@.len() == 4 * j,
            forall|t: int| 0 <= t < gains@.len() ==> 0 <= #[trigger] gains@[t] <= MAX_GAIN,
            dithers.len() == if j <= gains@.len() {
                j as int
            } else {
                gains@.len() as int
            },
            forall|k: int|
                0 <= k < dithers.len() ==> dither_ok(#[trigger] dithers[k].0) && dither_ok(
                    dithers[k].1,
                ) && frame_at(out@, k) == faded_frame(
                    left_sample(p@, k),
                    gains@[k] as int,
                    dithers[k].0,
                    dithers[k].1,
                ),
            forall|k: int|
                gains@.len() <= k < j ==> #[trigger] frame_at(out@, k) == frame_at(p@, n - 1 - k),
        decreases n - j,
    {
        let i = cur.next();
        proof {
            lemma_small_mod(j as nat, n as nat);
        }
        let base = 4 * i;
        let ghost prev: Seq<u8> = out@;
        if j < gains.len() {
            let s = decode_sample(p[base], p[base + 1]);
            let g = gains[j];
            let dl = sample_uniform(rng, -DITHER_BOUND, DITHER_BOUND);
            let dr = sample_uniform(rng, -DITHER_BOUND, DITHER_BOUND);
            let vl = scale_sample(s, g, dl);
            let vr = scale_sample(s, g, dr);
            let bl = encode_sample(vl);
            let br = encode_sample(vr);
            out.push(bl.0);
            out.push(bl.1);
            out.push(br.0);
            out.push(br.1);
            proof {
                let ghost dprev = dithers;
                let ghost pair = (dl as int, dr as int);
                assert(left_sample(p@, j as int) == s as int);
                assert(frame_at(out@, j as int) =~= faded_frame(
                    s as int,
                    g as int,
                    dl as int,
                    dr as int,
                ));
                dithers = dithers.push(pair);
                assert forall|k: int|
                    0 <= k < dithers.len() implies dither_ok(#[trigger] dithers[k].0) && dither_ok(
                    dithers[k].1,
                ) && frame_at(out@, k) == faded_frame(
                    left_sample(p@, k),
                    gains@[k] as int,
                    dithers[k].0,
                    dithers[k].1,
                ) by {
                    assert(dithers[k] == dprev.push(pair)[k]);
                    if k < j {
                        assert(dprev.push(pair)[k] == dprev[k]);
                        assert(frame_at(out@, k) =~= frame_at(prev, k));
                    } else {
                        assert(dprev.push(pair)[k] == pair);
                    }
                    assert(frame_at(out@, k) =~= faded_frame(
                        left_sample(p@, k),
                        gains@[k] as int,
                        dithers[k].0,
                        dithers[k].1,
                    ));
                }
            }
        } else {
            out.push(p[base]);
            out.push(p[base + 1]);
            out.push(p[base + 2]);
            out.push(p[base + 3]);
            proof {
                assert(frame_at(out@, j as int) =~= frame_at(p@, n - 1 - j));
                assert forall|k: int|
                    0 <= k < dithers.len() implies dither_ok(#[trigger] dithers[k].0) && dither_ok(
                    dithers[k].1,
                ) && frame_at(out@, k) == faded_frame(
                    left_sample(p@, k),
                    gains@[k] as int,
                    dithers[k].0,
                    dithers[k].1,
                ) by {
                    assert(frame_at(out@, k) =~= frame_at(prev, k));
                    assert(frame_at(out@, k) =~= faded_frame(
                        left_sample(p@, k),
                        gains@[k] as int,
                        dithers[k].0,
                        dithers[k].1,
                    ));
                }
                assert forall|k: int|
                    gains@.len() <= k < j + 1 implies #[trigger] frame_at(out@, k) == frame_at(
                    p@,
                    n - 1 - k,
                ) by {
                    if k < j {
                        assert(frame_at(out@, k) =~= frame_at(prev, k));
                    }
                }
            }
        }
        j = j + 1;
    }
    proof {
        assert forall|k: int|
            0 <= k < frame_count(p@) && k < gains@.len() implies frame_faded_ok(
            out@,
            p@,
            gains@[k] as int,
            k,
        ) by {
            assert(dither_ok(dithers[k].0) && dither_ok(dithers[k].1));
            assert(frame_at(out@, k) =~= faded_frame(
                left_sample(p@, k),
                gains@[k] as int,
                dithers[k].0,
                dithers[k].1,
            ));
        }
        assert(fade_ok(out@, p@, gains@));
    }
    out
}

} // verus!
