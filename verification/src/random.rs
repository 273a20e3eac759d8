//! The random source that squares are drawn from.

use vstd::prelude::*;
use rand::rngs::ThreadRng;
use rand::Rng;

verus! {

/// The thread-local generator of `rand`. Nothing is known of what it holds.
#[verifier::external_type_specification]
#[verifier::external_body]
pub struct ExThreadRng(rand::rngs::ThreadRng);

/// Not proved: `rand::thread_rng` hands out the generator of the calling
/// thread. Nothing is claimed of it. It seeds the generator from the system
/// on first use and panics if the system gives no seed.
pub assume_specification[ rand::thread_rng ]() -> (rng: ThreadRng)
;

/// Not proved: `rand::Rng::gen_range` on the half-open range from `low` to
/// `high` returns a number that is at least `low` and less than `high`. Which
/// one is left open. An empty range makes it panic, so `low` has to be less
/// than `high`.
#[verifier::external_body]
pub(crate) fn draw_between(rng: &mut ThreadRng, low: usize, high: usize) -> (drawn: usize)
    requires
        low < high,
    ensures
        low <= drawn < high,
{
    rng.gen_range(low..high)
}

} // verus!
