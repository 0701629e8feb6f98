//! The random number generator of bracket-lib, and what is known of the
//! numbers it gives.

use bracket_lib::prelude::RandomNumberGenerator;
use vstd::prelude::*;

verus! {

/// bracket-lib's random number generator, an opaque value to the proofs.
#[verifier::external_type_specification]
#[verifier::external_body]
pub struct ExRandomNumberGenerator(RandomNumberGenerator);

/// Calls `RandomNumberGenerator::new`, which seeds a generator from the
/// operating system (or the clock). Nothing is claimed of its state.
#[verifier::external_body]
pub(crate) fn new_rng() -> (r: RandomNumberGenerator) {
    RandomNumberGenerator::new()
}

/// Calls `RandomNumberGenerator::range`.
///
/// Claimed, as its documentation and source state: a number from `min`
/// (inclusive) to `max` (exclusive). The call panics on an empty range, so
/// `min < max` is required.
#[verifier::external_body]
pub(crate) fn range(rng: &mut RandomNumberGenerator, min: i32, max: i32) -> (r: i32)
    requires
        min < max,
    ensures
        min <= r < max,
{
    rng.range(min, max)
}

/// Calls `RandomNumberGenerator::roll_dice`, the sum of `n` rolls of a die
/// with `die_type` sides.
///
/// Claimed, as its source shows: a number from `n` to `n * die_type`. Each
/// roll is `range(1, die_type + 1)`, which panics unless `die_type >= 1`;
/// the sum must fit in `i32`.
#[verifier::external_body]
pub(crate) fn roll_dice(rng: &mut RandomNumberGenerator, n: i32, die_type: i32) -> (r: i32)
    requires
        1 <= n,
        1 <= die_type < i32::MAX,
        n * die_type <= i32::MAX,
    ensures
        n <= r <= n * die_type,
{
    rng.roll_dice(n, die_type)
}

} // verus!
