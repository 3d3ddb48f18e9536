//! Randomness for the simulation: the thread-local generator of the `rand`
//! crate behind thin trusted wrappers.  Nothing is assumed of the values
//! drawn beyond the range the documentation promises, so every caller is
//! verified for every possible outcome.

use vstd::prelude::*;

verus! {

/// Declares `rand::rngs::ThreadRng` to the verifier as an opaque type,
/// so that a generator handle can be threaded through verified code.
#[verifier::external_type_specification]
#[verifier::external_body]
pub struct ExThreadRng(rand::rngs::ThreadRng);

/// Relies on `rand::thread_rng`: a handle to the thread-local generator.
#[verifier::external_body]
pub fn new_rng() -> rand::rngs::ThreadRng {
    rand::thread_rng()
}

/// Relies on `rand::Rng::gen_range` on `lo..hi`: a value in the half-open
/// range.  It panics only on an empty range, which the precondition rules
/// out.
#[verifier::external_body]
pub fn rand_in(rng: &mut rand::rngs::ThreadRng, lo: i64, hi: i64) -> (r: i64)
    requires
        lo < hi,
    ensures
        lo <= r < hi,
{
    rand::Rng::gen_range(rng, lo..hi)
}

} // verus!
