use vstd::prelude::*;

use rand::Rng;
use rand_xoshiro::rand_core::SeedableRng;
use rand_xoshiro::Xoshiro256PlusPlus;

verus! {

/// The world's pseudo-random generator, seeded once.
#[verifier::external_type_specification]
#[verifier::external_body]
pub struct ExXoshiro256PlusPlus(Xoshiro256PlusPlus);

/// Relies on `rand_core::SeedableRng::seed_from_u64` for `Xoshiro256PlusPlus`: a generator
/// seeded from `seed`. Nothing is stated of its state.
#[verifier::external_body]
pub(crate) fn seeded(seed: u64) -> (r: Xoshiro256PlusPlus) {
    Xoshiro256PlusPlus::seed_from_u64(seed)
}

/// Relies on `rand::Rng::gen_range` over the inclusive range `lo..=hi`, which panics only on an
/// empty range: a value in `[lo, hi]`.
#[verifier::external_body]
pub(crate) fn gen_range_inclusive(rng: &mut Xoshiro256PlusPlus, lo: u64, hi: u64) -> (r: u64)
    requires
        lo <= hi,
    ensures
        lo <= r <= hi,
{
    rng.gen_range(lo..=hi)
}

} // verus!
