//! Random choices, drawn from the thread's generator of the `rand` crate.

use vstd::prelude::*;
use rand::rngs::ThreadRng;
use rand::Rng;

verus! {

/// The handle to the thread's random number generator.
#[verifier::external_type_specification]
#[verifier::external_body]
pub struct ExThreadRng(ThreadRng);

/// Calls `rand::thread_rng`, which hands out the handle to the generator of
/// the current thread. Nothing is claimed of the handle.
#[verifier::external_body]
pub(crate) fn local_generator() -> (rng: ThreadRng) {
    rand::thread_rng()
}

/// Calls `Rng::gen_range` on the half-open range from 0 to `bound`. The
/// method panics on an empty range, which `requires` leaves out, and returns
/// a value of the range. Which value is left open.
#[verifier::external_body]
pub(crate) fn draw_below(rng: &mut ThreadRng, bound: usize) -> (pick: usize)
    requires
        bound > 0,
    ensures
        pick < bound,
{
    rng.gen_range(0..bound)
}

} // verus!
