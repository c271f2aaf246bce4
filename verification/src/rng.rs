//! Per-weapon random streams, drawn through the `rand` crate.  Each weapon
//! owns a private, seeded generator so splash-angle and endurance-survival
//! randomness is reproducible per weapon.

use vstd::prelude::*;

verus! {

#[verifier::external_type_specification]
#[verifier::external_body]
pub struct ExStdRng(rand::rngs::StdRng);

/// Relies on rand's `SeedableRng::seed_from_u64` for `StdRng`: builds a
/// generator whose stream is a function of the seed.
#[verifier::external_body]
pub fn rng_from_seed(seed: u64) -> (r: rand::rngs::StdRng) {
    <rand::rngs::StdRng as rand::SeedableRng>::seed_from_u64(seed)
}

/// Relies on rand's `Rng::gen_ratio`: true with probability `num / denom`.
/// Its source returns false whenever `num == 0` and true whenever
/// `num == denom`; it panics for `denom == 0` or `num > denom`, which the
/// precondition excludes.
#[verifier::external_body]
pub fn rng_ratio(rng: &mut rand::rngs::StdRng, num: u32, denom: u32) -> (r: bool)
    requires
        0 < denom,
        num <= denom,
    ensures
        num == 0 ==> r == false,
        num == denom ==> r == true,
{
    rand::Rng::gen_ratio(rng, num, denom)
}

/// Relies on rand's `Rng::gen_range` on an `i64` range: uniform in
/// `[lo, hi)`; it panics on an empty range, which the precondition
/// excludes.
#[verifier::external_body]
pub fn rng_range(rng: &mut rand::rngs::StdRng, lo: i64, hi: i64) -> (r: i64)
    requires
        lo < hi,
    ensures
        lo <= r < hi,
{
    rand::Rng::gen_range(rng, lo..hi)
}

} // verus!
