//! Scaling a 64-bit sample into `[0, max)` by a widening multiply, and the
//! rule that tells which samples would bias the result.

use vstd::prelude::*;
use vstd::arithmetic::div_mod::{lemma_fundamental_div_mod, lemma_mod_multiples_vanish};
use crate::words::{high_half, low_half, negate, word_count};

verus! {

/// The full product of a sample and the bound, which needs up to 128 bits.
pub open spec fn product(sample: u64, max: u64) -> int {
    sample * max
}

/// The value that a sample is scaled to: the high 64 bits of the product.
pub open spec fn candidate(sample: u64, max: u64) -> int {
    product(sample, max) / word_count()
}

/// The low 64 bits of the product: how far the product lies above the start
/// of its candidate's interval.
pub open spec fn remainder(sample: u64, max: u64) -> int {
    product(sample, max) % word_count()
}

/// The number of samples left over when the 2^64 samples are dealt evenly to
/// `max` values: `2^64 mod max`.
pub open spec fn threshold(max: u64) -> int
    recommends
        max > 0,
{
    word_count() % (max as int)
}

/// Whether a sample is kept. A sample whose remainder lies below the
/// threshold is one of those that would make its candidate too frequent.
pub open spec fn accepted(sample: u64, max: u64) -> bool
    recommends
        max > 0,
{
    remainder(sample, max) >= threshold(max)
}

/// Every candidate lies below the bound.
pub proof fn lemma_candidate_below_max(sample: u64, max: u64)
    requires
        max > 0,
    ensures
        0 <= candidate(sample, max) < max,
{
    let p = product(sample, max);
    let w = word_count();
    assert(0 <= p < w * max) by (nonlinear_arith)
        requires
            p == sample * max,
            0 <= sample < w,
            max > 0,
    ;
    lemma_fundamental_div_mod(p, w);
    assert(0 <= p / w < max) by (nonlinear_arith)
        requires
            0 <= p < w * max,
            w > 0,
            p == w * (p / w) + p % w,
            0 <= p % w < w,
    ;
}

/// Multiplies a sample by the bound in 128 bits and splits the product into
/// its candidate (the high half) and its remainder (the low half).
pub fn scale(sample: u64, max: u64) -> (parts: (u64, u64))
    ensures
        parts.0 == candidate(sample, max),
        parts.1 == remainder(sample, max),
{
    assert(sample * max <= 0xffff_ffff_ffff_ffff * 0xffff_ffff_ffff_ffff) by (nonlinear_arith);
    let wide: u128 = (sample as u128) * (max as u128);
    (high_half(wide), low_half(wide))
}

/// Computes `2^64 mod max` in 64 bits, as the negation of `max` reduced
/// modulo `max`.
pub fn bias_threshold(max: u64) -> (t: u64)
    requires
        max > 0,
    ensures
        t == threshold(max),
        t < max,
{
    let neg: u64 = negate(max);
    proof {
        lemma_mod_multiples_vanish(-1, word_count(), max as int);
    }
    neg % max
}

/// Decides on one sample: its candidate if the sample is kept, nothing if it
/// is rejected. The threshold is worked out only where the remainder lies
/// below the bound.
pub fn accept(sample: u64, max: u64) -> (kept: Option<u64>)
    requires
        max > 0,
    ensures
        match kept {
            Some(v) => accepted(sample, max) && v == candidate(sample, max) && v < max,
            None => !accepted(sample, max),
        },
{
    proof {
        lemma_candidate_below_max(sample, max);
    }
    let (high, low) = scale(sample, max);
    if low >= max || low >= bias_threshold(max) {
        Some(high)
    } else {
        None
    }
}

/// Decides on one sample as `accept` does, with the threshold of the bound
/// at hand.
pub fn accept_with(sample: u64, max: u64, t: u64) -> (kept: Option<u64>)
    requires
        max > 0,
        t == threshold(max),
    ensures
        match kept {
            Some(v) => accepted(sample, max) && v == candidate(sample, max) && v < max,
            None => !accepted(sample, max),
        },
{
    proof {
        lemma_candidate_below_max(sample, max);
    }
    let (high, low) = scale(sample, max);
    if low >= t {
        Some(high)
    } else {
        None
    }
}

} // verus!
