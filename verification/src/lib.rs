//! Unbiased random integers below a bound, by Lemire's nearly divisionless
//! multiply-and-shift method with rejection of the biased remainder region.

pub mod replay;
pub mod scaling;
pub mod source;
pub mod uniform;
pub mod words;

use vstd::prelude::*;
use crate::scaling::{
    accept, accept_with, bias_threshold, lemma_candidate_below_max, scale, threshold,
};
use crate::source::draw_sample;

verus! {

/// The error of a draw: the bound was zero, so there is no value below it.
#[derive(Debug, Clone, Copy, PartialEq, Eq)]
pub struct RandError {}

impl RandError {
    /// The text that describes the error.
    pub fn message(&self) -> (text: String)
        ensures
            text@ == "Random number generator error"@,
    {
        "Random number generator error".to_string()
    }
}

/// How many times `ndl_rand` draws again after its first sample before it
/// gives up on a source that has every sample rejected.
pub const MAX_REDRAWS: u64 = 0xffff_ffff_ffff_ffff;

/// Draws a random number in `[0, max)`.
///
/// A zero `max` is refused before anything is drawn. Otherwise samples are
/// drawn one by one and each is handed to `accept`, or to `accept_with` once
/// the threshold is known; the result is the candidate of the first sample
/// that is kept. Each sample is rejected with a chance below one half;
/// should the first sample and `MAX_REDRAWS` redraws all be rejected, the
/// source is broken and the candidate of the last sample is returned as it
/// is, still below `max`.
pub fn ndl_rand(max: u64) -> (r: Result<u64, RandError>)
    ensures
        max == 0 <==> r is Err,
        r matches Ok(v) ==> v < max,
{
    if max == 0 {
        return Err(RandError {});
    }
    let mut sample: u64 = draw_sample();
    match accept(sample, max) {
        Some(v) => {
            return Ok(v);
        },
        None => {},
    }
    let t: u64 = bias_threshold(max);
    let mut redraws: u64 = 0;
    while redraws < MAX_REDRAWS
        invariant
            max > 0,
            t == threshold(max),
            redraws <= MAX_REDRAWS,
        decreases MAX_REDRAWS - redraws,
    {
        sample = draw_sample();
        match accept_with(sample, max, t) {
            Some(v) => {
                return Ok(v);
            },
            None => {},
        }
        redraws = redraws + 1;
    }
    proof {
        lemma_candidate_below_max(sample, max);
    }
    Ok(scale(sample, max).0)
}

} // verus!
