//! The source of raw samples.

use vstd::prelude::*;

verus! {

/// Draws one 64-bit sample from the thread-local generator of the `rand`
/// crate, by `rand::thread_rng` and `rand::Rng::gen`. The generator hands
/// out the next 64 bits of its stream; which word comes is up to chance, so
/// nothing is claimed of it. The generator is seeded from the operating
/// system when a thread first uses it, and panics there if the system gives
/// it no seed.
#[verifier::external_body]
pub(crate) fn draw_sample() -> (sample: u64) {
    rand::Rng::gen::<u64>(&mut rand::thread_rng())
}

} // verus!
