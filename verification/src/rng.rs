//! Random draws, supplied by the `rand` crate.
//!
//! Rendering consumes an explicitly seeded generator that is owned by
//! the caller, so parallel workers can each hold an independent stream.
//! Every draw goes through the single wrapper below; its contract only
//! states the range of the result, never which value comes out.

use vstd::prelude::*;

verus! {

#[verifier::external_type_specification]
#[verifier::external_body]
pub struct ExStdRng(rand::rngs::StdRng);

/// Relies on rand's `SeedableRng::seed_from_u64`: builds a generator
/// from a word-sized seed; nothing is promised about its stream.
#[verifier::external_body]
pub fn seed_rng(seed: u64) -> rand::rngs::StdRng {
    <rand::rngs::StdRng as rand::SeedableRng>::seed_from_u64(seed)
}

/// Relies on rand's `Rng::gen_range` over `lo..hi`: a draw in the
/// half-open range `[lo, hi)`; it panics only on an empty range, which
/// the precondition rules out.
#[verifier::external_body]
pub fn gen_range_i64(rng: &mut rand::rngs::StdRng, lo: i64, hi: i64) -> (r: i64)
    requires
        lo < hi,
    ensures
        lo <= r < hi,
{
    rand::Rng::gen_range(rng, lo..hi)
}

} // verus!
