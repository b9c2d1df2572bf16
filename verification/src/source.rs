//! The random sources that the draws read their samples from.

use rand::distributions::{IndependentSample, Range};
use vstd::prelude::*;

verus! {

/// `rand::StdRng`, the generator that can be seeded. Nothing of its state is
/// visible here.
#[verifier::external_type_specification]
#[verifier::external_body]
pub struct ExStdRng(rand::StdRng);

/// `rand::ThreadRng`, the handle to the generator of the current thread.
/// Nothing of its state is visible here.
#[verifier::external_type_specification]
#[verifier::external_body]
pub struct ExThreadRng(rand::ThreadRng);

/// `rand::thread_rng` hands out the generator of the current thread. Nothing
/// is claimed of it.
pub assume_specification[ rand::thread_rng ]() -> (rng: rand::ThreadRng)
;

/// Reads a number of `low..high` from a seeded generator, by `Range::new`
/// and `IndependentSample::ind_sample` of `rand::distributions`. `Range::new`
/// panics unless `low < high`, which is required here. That the number lies
/// in `low..high` is what `Range` documents of the integer types, and all
/// that is claimed: which number comes depends on the generator's state.
#[verifier::external_body]
pub(crate) fn sample_seeded(rng: &mut rand::StdRng, low: u32, high: u32) -> (sample: u32)
    requires
        low < high,
    ensures
        low <= sample < high,
{
    Range::new(low, high).ind_sample(rng)
}

/// Reads a number of `low..high` from the generator of the current thread,
/// by `Range::new` and `IndependentSample::ind_sample` of
/// `rand::distributions`. `Range::new` panics unless `low < high`, which is
/// required here. That the number lies in `low..high` is what `Range`
/// documents of the integer types, and all that is claimed.
#[verifier::external_body]
pub(crate) fn sample_thread(rng: &mut rand::ThreadRng, low: u32, high: u32) -> (sample: u32)
    requires
        low < high,
    ensures
        low <= sample < high,
{
    Range::new(low, high).ind_sample(rng)
}

} // verus!
