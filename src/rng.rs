use vstd::prelude::*;

verus! {

#[verifier::external_type_specification]
#[verifier::external_body]
pub struct ExRandomNumberGenerator(rltk::RandomNumberGenerator);

/// Relies on bracket-random's `RandomNumberGenerator::range`, which draws with
/// `gen_range(min..max)`: a value in the half-open range, and a panic on an
/// empty range.
#[verifier::external_body]
pub(crate) fn range_i32(rng: &mut rltk::RandomNumberGenerator, min: i32, max: i32) -> (r: i32)
    requires
        min < max,
    ensures
        min <= r < max,
{
    rng.range::<i32>(min, max)
}

} // verus!
