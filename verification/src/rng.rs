//! Deterministic pseudo-random numbers for gradient generation.
//!
//! Gradient noise needs a stream of random lattice vectors. The stream is
//! produced by a fully specified linear congruential generator, so that a
//! grid built from a given seed is a pure function of that seed. Fresh
//! seeds for unseeded construction come from the `rand` crate.

use vstd::prelude::*;

verus! {

/// Multiplier of the linear congruential generator.
pub const LCG_MUL: u64 = 1_664_525;

/// Increment of the linear congruential generator.
pub const LCG_ADD: u64 = 1_013_904_223;

/// Modulus of the linear congruential generator: two to the 32nd power.
pub const LCG_MOD: u64 = 4_294_967_296;

/// One step of the linear congruential generator.
pub open spec fn lcg_next_spec(s: int) -> int {
    (LCG_MUL * s + LCG_ADD) % (LCG_MOD as int)
}

/// The generator state after `k` steps from `seed`.
pub open spec fn lcg_iter_spec(seed: int, k: nat) -> int
    decreases k,
{
    if k == 0 {
        seed
    } else {
        lcg_next_spec(lcg_iter_spec(seed, (k - 1) as nat))
    }
}

/// Advances the generator by one step.
pub fn lcg_next(s: u32) -> (r: u32)
    ensures
        r == lcg_next_spec(s as int),
{
    (((s as u64) * LCG_MUL + LCG_ADD) % LCG_MOD) as u32
}

/// Relies on `rand::random`: draws one 32-bit value from the thread-local
/// generator to seed unseeded construction. Nothing is promised of a
/// random value.
#[verifier::external_body]
pub(crate) fn random_seed() -> u32 {
    rand::random::<u32>()
}

} // verus!
