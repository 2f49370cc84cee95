//! The method of `ndl_rand` run on given samples, so that its result can be
//! predicted and repeated.

use vstd::prelude::*;
use crate::scaling::{accept, accept_with, accepted, bias_threshold, candidate, threshold};
use crate::RandError;

verus! {

/// What a run over given samples came to: the value, and how many of the
/// samples were read to reach it.
#[derive(Debug, Clone, Copy, PartialEq, Eq)]
pub struct Draw {
    pub value: u64,
    pub used: usize,
}

/// Whether each of the first `n` samples is rejected under the bound `max`.
pub open spec fn all_rejected(samples: Seq<u64>, max: u64, n: int) -> bool {
    forall|j: int| 0 <= j < n ==> !accepted(#[trigger] samples[j], max)
}

/// Whether a run over `samples` ends with the sample number `used`, counted
/// from one: that sample is kept and each one before it is rejected.
pub open spec fn settles(samples: Seq<u64>, max: u64, used: int) -> bool {
    &&& 0 < used <= samples.len()
    &&& all_rejected(samples, max, used - 1)
    &&& accepted(samples[used - 1], max)
}

/// Runs the method of `ndl_rand` on given samples in place of random ones.
///
/// A zero `max` is refused. Otherwise the samples are read in order, each is
/// handed to `accept` or `accept_with` as `ndl_rand` hands its draws, and the
/// result is the candidate of the first sample that is kept, with the number
/// of samples read; where every sample is rejected there is no result.
pub fn ndl_rand_from(max: u64, samples: &[u64]) -> (r: Result<Option<Draw>, RandError>)
    ensures
        max == 0 <==> r is Err,
        (max > 0 && all_rejected(samples@, max, samples@.len() as int)) <==> (r matches Ok(None)),
        r matches Ok(Some(d)) ==> settles(samples@, max, d.used as int) && d.value == candidate(
            samples@[d.used - 1],
            max,
        ),
{
    if max == 0 {
        return Err(RandError {});
    }
    if samples.len() == 0 {
        return Ok(None);
    }
    match accept(samples[0], max) {
        Some(v) => {
            return Ok(Some(Draw { value: v, used: 1 }));
        },
        None => {},
    }
    let t: u64 = bias_threshold(max);
    let mut used: usize = 1;
    while used < samples.len()
        invariant
            max > 0,
            t == threshold(max),
            0 < used <= samples.len(),
            all_rejected(samples@, max, used as int),
        decreases samples.len() - used,
    {
        match accept_with(samples[used], max, t) {
            Some(v) => {
                return Ok(Some(Draw { value: v, used: used + 1 }));
            },
            None => {},
        }
        used = used + 1;
    }
    Ok(None)
}

/// A run over given samples has one outcome: it cannot end at two different
/// samples, and where it ends at one, not every sample is rejected.
pub proof fn lemma_outcome_is_determined(samples: Seq<u64>, max: u64, a: int, b: int)
    requires
        settles(samples, max, a),
    ensures
        settles(samples, max, b) ==> a == b,
        !all_rejected(samples, max, samples.len() as int),
{
    if settles(samples, max, b) {
        if a < b {
            assert(!accepted(samples[a - 1], max));
        } else if b < a {
            assert(!accepted(samples[b - 1], max));
        }
    }
    if all_rejected(samples, max, samples.len() as int) {
        assert(!accepted(samples[a - 1], max));
    }
}

} // verus!
