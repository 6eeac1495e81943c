//! Access to the thread-local random number generator of `rand`.

use vstd::prelude::*;

verus! {

/// `rand::rngs::ThreadRng`, carried through verified code as an opaque value.
#[verifier::external_type_specification]
#[verifier::external_body]
pub struct ExThreadRng(rand::rngs::ThreadRng);

/// Calls `rand::thread_rng()`. Nothing is promised of the generator it hands
/// back: its state is seeded by the operating system.
#[verifier::external_body]
pub(crate) fn thread_rng() -> rand::rngs::ThreadRng {
    rand::thread_rng()
}

/// Calls `rand::Rng::gen_range(rng, low..high)` on `i32`. The crate documents
/// that the value lies in the half-open range and that an empty range panics,
/// so the range is required to be non-empty. Which value comes out is chance
/// and is left unsaid.
#[verifier::external_body]
pub(crate) fn gen_range_i32(rng: &mut rand::rngs::ThreadRng, low: i32, high: i32) -> (r: i32)
    requires
        low < high,
    ensures
        low <= r < high,
{
    rand::Rng::gen_range(rng, low..high)
}

} // verus!
