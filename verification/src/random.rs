//! The machine's source of uniform random bytes, backed by the `rand`
//! crate.  The generator is injected at construction from a seed, so runs
//! are reproducible.

use vstd::prelude::*;

use rand::Rng;
use rand::SeedableRng;

verus! {

#[verifier::external_type_specification]
#[verifier::external_body]
pub struct ExStdRng(rand::rngs::StdRng);

/// Relies on rand's `StdRng::seed_from_u64`: builds a generator from a
/// 64-bit seed.
#[verifier::external_body]
pub(crate) fn new_rng(seed: u64) -> rand::rngs::StdRng {
    rand::rngs::StdRng::seed_from_u64(seed)
}

/// Relies on rand's `Rng::gen_range` over `0..256`: draws one value of
/// that range and advances the generator.  Nothing is promised of the
/// value drawn; callers must hold for every byte that can come back.
#[verifier::external_body]
pub(crate) fn random_byte(rng: &mut rand::rngs::StdRng) -> u8 {
    rng.gen_range(0..256u16) as u8
}

} // verus!
