//! The random source the game draws from.
//!
//! Nothing in this file is proved: each item states what the `rand` crate
//! documents of one of its functions, and the rest of the crate is verified
//! against these statements.

use rand::rngs::ThreadRng;
use rand::Rng;
use vstd::prelude::*;

verus! {

/// `rand::rngs::ThreadRng`, the handle to a thread's generator. Its state
/// is hidden from the proofs.
#[verifier::external_type_specification]
#[verifier::external_body]
pub struct ExThreadRng(ThreadRng);

/// `rand::thread_rng`: hands out the calling thread's generator. Nothing is
/// claimed of the generator it returns. The call takes no argument; it
/// panics only where the system cannot seed the generator.
pub assume_specification[ rand::thread_rng ]() -> (rng: ThreadRng);

/// `Rng::gen_range` on the inclusive range `lo..=hi` of `i32`, drawn from
/// `rng`.
///
/// Claimed: the draw lies between the two bounds, both included. Which
/// value comes is up to the generator, so two calls may differ.
/// `gen_range` panics on an empty range, hence `lo <= hi`.
#[verifier::external_body]
pub(crate) fn gen_range_inclusive(rng: &mut ThreadRng, lo: i32, hi: i32) -> (n: i32)
    requires
        lo <= hi,
    ensures
        lo <= n <= hi,
{
    rng.gen_range(lo..=hi)
}

} // verus!
