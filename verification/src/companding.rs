//! Expansion of logarithmically companded 8-bit samples to linear ones.

use vstd::prelude::*;
use vstd::arithmetic::power2::{lemma2_to64, pow2};

verus! {

/// The bits of a companded sample that hold the quantisation step.
pub const QUANT_MASK: u8 = 0x0f;

/// The bits of a companded sample that hold the segment number.
pub const SEG_MASK: u8 = 0x70;

/// How far the segment number is shifted up.
pub const SEG_SHIFT: u8 = 4;

/// The bias of the mu-law encoding.
pub const BIAS: u16 = 0x84;

/// The linear value of the A-law sample `a_val`.
///
/// The sample is stored with every other bit inverted. Its low four bits
/// are the step within a segment, the next three the segment, the top bit
/// the sign (set for positive). Segment 0 has steps of 16 from 8; segment
/// `s >= 1` has steps of `16 * 2^(s-1)` from `264 * 2^(s-1)`.
pub open spec fn alaw_value(a_val: u8) -> int {
    let a = a_val ^ 0x55;
    let step = a % 16;
    let seg = (a / 16) % 8;
    let magnitude = if seg == 0 {
        16 * step + 8
    } else {
        (16 * step + 0x108) * pow2((seg - 1) as nat)
    };
    if a >= 0x80 {
        magnitude as int
    } else {
        -magnitude
    }
}

/// The linear value of the mu-law sample `u_val`.
///
/// The sample is stored complemented. Its low four bits are the step
/// within a segment, the next three the segment `s`, the top bit the sign
/// (set for positive). The magnitude is `(8 * step + 132) * 2^s - 132`.
pub open spec fn mulaw_value(u_val: u8) -> int {
    let u = 255 - u_val;
    let step = u % 16;
    let seg = (u / 16) % 8;
    let magnitude = (8 * step + 0x84) * pow2(seg as nat) - 0x84;
    if u >= 0x80 {
        magnitude
    } else {
        -magnitude
    }
}

/// A left shift of a small value multiplies it by a power of two.
proof fn lemma_shift_scales(x: u16, k: u16)
    requires
        x <= 0x1ff,
        k <= 7,
    ensures
        (x << k) == x * pow2(k as nat),
        x * pow2(k as nat) <= 0xff80,
{
    lemma2_to64();
    if k == 0 {
        assert(x << 0u16 == x) by (bit_vector);
    } else if k == 1 {
        assert(x << 1u16 == x * 2) by (bit_vector)
            requires
                x <= 0x1ff,
        ;
    } else if k == 2 {
        assert(x << 2u16 == x * 4) by (bit_vector)
            requires
                x <= 0x1ff,
        ;
    } else if k == 3 {
        assert(x << 3u16 == x * 8) by (bit_vector)
            requires
                x <= 0x1ff,
        ;
    } else if k == 4 {
        assert(x << 4u16 == x * 16) by (bit_vector)
            requires
                x <= 0x1ff,
        ;
    } else if k == 5 {
        assert(x << 5u16 == x * 32) by (bit_vector)
            requires
                x <= 0x1ff,
        ;
    } else if k == 6 {
        assert(x << 6u16 == x * 64) by (bit_vector)
            requires
                x <= 0x1ff,
        ;
    } else {
        assert(x << 7u16 == x * 128) by (bit_vector)
            requires
                x <= 0x1ff,
        ;
    }
}

/// Expands an A-law sample.
pub fn alaw_to_linear(a_val: u8) -> (r: i16)
    ensures
        r == alaw_value(a_val),
{
    let a: u8 = a_val ^ 0x55;
    let step: u16 = (a & QUANT_MASK) as u16;
    let seg: u16 = ((a & SEG_MASK) >> SEG_SHIFT) as u16;
    let positive: bool = a & 0x80 == 0x80;
    proof {
        assert(a & 0x0f == a % 16) by (bit_vector);
        assert((a & 0x70) >> 4u8 == (a / 16) % 8) by (bit_vector);
        assert((a & 0x80 == 0x80) == (a >= 0x80)) by (bit_vector);
        assert(step << 4u16 == 16 * step) by (bit_vector)
            requires
                step < 16,
        ;
        if seg >= 1 {
            lemma_shift_scales((16 * step + 0x108) as u16, (seg - 1) as u16);
        }
    }
    let t: u16 = step << 4;
    let magnitude: u16 = if seg == 0 {
        t + 0x8
    } else if seg == 1 {
        proof {
            lemma2_to64();
        }
        t + 0x108
    } else {
        (t + 0x108) << (seg - 1)
    };
    assert(seg == (a / 16) % 8);
    assert(step == a % 16);
    assert(t == 16 * step);
    assert(seg == 0 ==> magnitude == 16 * step + 8);
    assert(seg == 1 ==> magnitude == (16 * step + 0x108) * pow2(0)) by {
        lemma2_to64();
    }
    assert(seg >= 2 ==> magnitude == (16 * step + 0x108) * pow2((seg - 1) as nat));
    assert(magnitude <= 0x7e00) by {
        lemma2_to64();
        if seg >= 2 {
            assert((16 * step + 0x108) * pow2((seg - 1) as nat) <= 0x1f8 * 64) by (nonlinear_arith)
                requires
                    16 * step + 0x108 <= 0x1f8,
                    pow2((seg - 1) as nat) <= 64,
            ;
        }
    }
    if positive {
        magnitude as i16
    } else {
        -(magnitude as i16)
    }
}

/// Expands a mu-law sample.
pub fn mulaw_to_linear(u_val: u8) -> (r: i16)
    ensures
        r == mulaw_value(u_val),
{
    // Complement to obtain the plain value.
    let u: u8 = !u_val;
    let step: u16 = (u & QUANT_MASK) as u16;
    let seg: u16 = ((u & SEG_MASK) >> SEG_SHIFT) as u16;
    let positive: bool = u & 0x80 == 0x80;
    proof {
        assert(!u_val == 255 - u_val) by (bit_vector);
        assert(u & 0x0f == u % 16) by (bit_vector);
        assert((u & 0x70) >> 4u8 == (u / 16) % 8) by (bit_vector);
        assert((u & 0x80 == 0x80) == (u >= 0x80)) by (bit_vector);
        assert(step << 3u16 == 8 * step) by (bit_vector)
            requires
                step < 16,
        ;
        lemma_shift_scales((8 * step + 0x84) as u16, seg);
        lemma2_to64();
    }
    // The biased step, moved up by the segment number.
    let biased: u16 = (step << 3) + BIAS;
    let t: u16 = biased << seg;
    assert(BIAS <= t <= 0x7e00) by {
        lemma2_to64();
        assert((8 * step + 0x84) * pow2(seg as nat) <= 0xfc * 128) by (nonlinear_arith)
            requires
                8 * step + 0x84 <= 0xfc,
                pow2(seg as nat) <= 128,
        ;
        assert((8 * step + 0x84) * pow2(seg as nat) >= 0x84) by (nonlinear_arith)
            requires
                8 * step + 0x84 >= 0x84,
                pow2(seg as nat) >= 1,
        ;
    }
    if positive {
        (t - BIAS) as i16
    } else {
        -((t - BIAS) as i16)
    }
}

} // verus!
