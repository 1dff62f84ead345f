//! The sample-frame model: a byte buffer split into 4-byte stereo
//! frames, the frame-granular reversal of such a buffer, and a cyclic
//! cursor that walks the reversed frame order.
//!
//! A frame is the atomic unit of reversal and is never split: reversal
//! keeps the four bytes of each frame in their original order and only
//! reverses the order of the frames themselves.

use vstd::prelude::*;
use vstd::arithmetic::div_mod::{
    lemma_fundamental_div_mod, lemma_fundamental_div_mod_converse, lemma_mod_bound,
    lemma_small_mod,
};

verus! {

/// Number of whole 4-byte frames in the buffer `s`.
pub open spec fn frame_count(s: Seq<u8>) -> int {
    s.len() as int / 4
}

/// The `j`-th 4-byte frame of the buffer `s`.
pub open spec fn frame_at(s: Seq<u8>, j: int) -> Seq<u8> {
    s.subrange(4 * j, 4 * j + 4)
}

/// The buffer `s` with its frames in reverse order: byte `i` of the
/// result comes from the frame mirrored around the middle, at the same
/// offset within the frame.
pub open spec fn frame_reversal(s: Seq<u8>) -> Seq<u8> {
    Seq::new(s.len(), |i: int| s[4 * (frame_count(s) - 1 - i / 4) + i % 4])
}

/// Byte `4 * j + t` lies in frame `j` at offset `t`.
proof fn lemma_frame_byte_index(j: int, t: int)
    requires
        0 <= j,
        0 <= t < 4,
    ensures
        (4 * j + t) / 4 == j,
        (4 * j + t) % 4 == t,
{
    lemma_fundamental_div_mod_converse(4 * j + t, 4, j, t);
}

/// Reversing a frame-aligned buffer twice restores it exactly: frame
/// reversal is an involution.
pub proof fn lemma_frame_reversal_involutive(s: Seq<u8>)
    requires
        s.len() % 4 == 0,
    ensures
        frame_reversal(frame_reversal(s)) == s,
{
    let r = frame_reversal(s);
    let rr = frame_reversal(r);
    let n = frame_count(s);
    lemma_fundamental_div_mod(s.len() as int, 4);
    assert forall|i: int| 0 <= i < s.len() implies rr[i] == s[i] by {
        let j = i / 4;
        let t = i % 4;
        lemma_fundamental_div_mod(i, 4);
        lemma_mod_bound(i, 4);
        assert(0 <= j < n);
        assert(rr[i] == r[4 * (n - 1 - j) + t]);
        lemma_frame_byte_index(n - 1 - j, t);
        assert(r[4 * (n - 1 - j) + t] == s[4 * j + t]);
    }
    assert(rr =~= s);
}

/// A restartable cursor over the frames of a buffer in reversed order.
///
/// The first draw yields the index of the buffer's last frame, each
/// further draw the frame before it, and after the first frame of the
/// buffer the cursor wraps back to the last frame again: cycling the
/// cursor is equivalent to replaying the reversed buffer end-to-end.
pub struct FrameCursor {
    frames: usize,
    pos: usize,
    drawn: Ghost<nat>,
}

impl FrameCursor {
    /// Total number of frames the cursor cycles over.
    pub closed spec fn frame_total(self) -> int {
        self.frames as int
    }

    /// Number of frame indices the cursor has yielded so far.
    pub closed spec fn drawn_count(self) -> int {
        self.drawn@ as int
    }

    /// The cursor position always mirrors the draw count modulo the
    /// frame total.
    pub closed spec fn wf(self) -> bool {
        &&& self.frames >= 1
        &&& self.pos == self.frames - 1 - self.drawn_count() % self.frame_total()
    }

    /// A fresh cursor over `frames` frames, about to yield the last one.
    pub fn new(frames: usize) -> (c: FrameCursor)
        requires
            frames >= 1,
        ensures
            c.wf(),
            c.frame_total() == frames,
            c.drawn_count() == 0,
    {
        proof {
            lemma_small_mod(0, frames as nat);
        }
        FrameCursor { frames, pos: frames - 1, drawn: Ghost(0nat) }
    }

    /// Yields the next frame index of the reversed cyclic order.
    pub fn next(&mut self) -> (i: usize)
        requires
            old(self).wf(),
        ensures
            final(self).wf(),
            final(self).frame_total() == old(self).frame_total(),
            final(self).drawn_count() == old(self).drawn_count() + 1,
            i == old(self).frame_total() - 1 - old(self).drawn_count() % old(self).frame_total(),
            0 <= i < old(self).frame_total(),
    {
        proof {
            lemma_mod_bound(old(self).drawn_count(), old(self).frame_total());
        }
        let i = self.pos;
        if self.pos == 0 {
            self.pos = self.frames - 1;
        } else {
            self.pos = self.pos - 1;
        }
        proof {
            let d = old(self).drawn_count();
            let f = old(self).frame_total();
            let m = d % f;
            lemma_fundamental_div_mod(d, f);
            assert((d / f) * f == f * (d / f)) by (nonlinear_arith);
            if i == 0 {
                assert((d / f + 1) * f == (d / f) * f + f) by (nonlinear_arith);
                lemma_fundamental_div_mod_converse(d + 1, f, d / f + 1, 0);
            } else {
                assert(0 <= m < f);
                assert(i == f - 1 - m);
                lemma_fundamental_div_mod_converse(d + 1, f, d / f, m + 1);
            }
            self.drawn@ = self.drawn@ + 1;
        }
        i
    }
}

/// The frames of `p` emitted in strict reverse order, as one buffer.
pub fn reverse_frames(p: &[u8]) -> (r: Vec<u8>)
    requires
        p@.len() % 4 == 0,
    ensures
        r@ == frame_reversal(p@),
{
    let n = p.len() / 4;
    let mut r: Vec<u8> = Vec::new();
    proof {
        lemma_fundamental_div_mod(p@.len() as int, 4);
    }
    if n == 0 {
        assert(r@ =~= frame_reversal(p@));
        return r;
    }
    let mut cur = FrameCursor::new(n);
    let mut j: usize = 0;
    while j < n
        invariant
            p@.len() % 4 == 0,
            p@.len() == 4 * n,
            p@.len() <= usize::MAX,
            n == frame_count(p@),
            1 <= n,
            j <= n,
            cur.wf(),
            cur.frame_total() == n,
            cur.drawn_count() == j,
            r@.len() == 4 * j,
            forall|k: int| 0 <= k < 4 * j ==> r@[k] == frame_reversal(p@)[k],
        decreases n - j,
    {
        let i = cur.next();
        proof {
            lemma_small_mod(j as nat, n as nat);
        }
        let base = 4 * i;
        r.push(p[base]);
        r.push(p[base + 1]);
        r.push(p[base + 2]);
        r.push(p[base + 3]);
        proof {
            assert forall|k: int| 0 <= k < 4 * (j + 1) implies r@[k] == frame_reversal(p@)[k] by {
                if 4 * j <= k {
                    lemma_frame_byte_index(j as int, k - 4 * j);
                    assert(frame_reversal(p@)[k] == p@[4 * (n - 1 - j) + (k - 4 * j)]);
                }
            }
        }
        j = j + 1;
    }
    proof {
        assert(r@ =~= frame_reversal(p@));
    }
    r
}

} // verus!
