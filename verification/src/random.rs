//! The random source. Generation draws every value through the two functions
//! here, so a seeded generator replays the same mystery.

use rltk::RandomNumberGenerator;
use vstd::prelude::*;

verus! {

#[verifier::external_type_specification]
#[verifier::external_body]
pub struct ExRandomNumberGenerator(RandomNumberGenerator);

/// `RandomNumberGenerator::range` at `i32`: a value from `min` up to, but not
/// including, `max`. Which one is not stated. The outside function panics on an
/// empty range, which the precondition leaves out.
#[verifier::external_body]
pub(crate) fn range_i32(rng: &mut RandomNumberGenerator, min: i32, max: i32) -> (r: i32)
    requires
        min < max,
    ensures
        min <= r < max,
{
    rng.range(min, max)
}

/// `RandomNumberGenerator::range` at `usize`: a value from `min` up to, but not
/// including, `max`. Which one is not stated. The outside function panics on an
/// empty range, which the precondition leaves out.
#[verifier::external_body]
pub(crate) fn range_usize(rng: &mut RandomNumberGenerator, min: usize, max: usize) -> (r: usize)
    requires
        min < max,
    ensures
        min <= r < max,
{
    rng.range(min, max)
}

} // verus!
