use vstd::prelude::*;

verus! {

#[verifier::external_type_specification]
#[verifier::external_body]
pub struct ExRandomNumberGenerator(rltk::RandomNumberGenerator);

/// Relies on rltk::RandomNumberGenerator::seeded: builds a generator whose
/// draws are determined by the given seed.
#[verifier::external_body]
pub(crate) fn rng_seeded(seed: u64) -> rltk::RandomNumberGenerator {
    rltk::RandomNumberGenerator::seeded(seed)
}

/// Relies on rltk::RandomNumberGenerator::range: a draw that is inclusive of
/// `min` and exclusive of `max`. It panics on an empty range, which the
/// precondition excludes.
#[verifier::external_body]
pub(crate) fn rng_range(rng: &mut rltk::RandomNumberGenerator, min: i32, max: i32) -> (r: i32)
    requires
        min < max,
    ensures
        min <= r < max,
{
    rng.range(min, max)
}

/// Relies on rltk::RandomNumberGenerator::roll_dice: the sum of `n` draws
/// from 1..=die_type, so the result lies between n and n * die_type. A
/// non-positive count or die size would make the underlying draw panic, so
/// the precondition excludes both.
#[verifier::external_body]
pub(crate) fn rng_roll_dice(rng: &mut rltk::RandomNumberGenerator, n: i32, die_type: i32) -> (r: i32)
    requires
        1 <= n <= 1000,
        1 <= die_type <= 1000,
    ensures
        n <= r <= n * die_type,
{
    rng.roll_dice(n, die_type)
}

} // verus!
