//! The random number generator behind the simulation.  Trusted: each
//! function makes one call into `rand`.

use vstd::prelude::*;

verus! {

#[verifier::external_type_specification]
#[verifier::external_body]
pub struct ExStdRng(rand::rngs::StdRng);

/// The state of a generator: all that its further numbers depend on.
pub uninterp spec fn rng_state(rng: rand::rngs::StdRng) -> int;

/// The state of the generator that a seed makes.
pub uninterp spec fn seeded_state(seed: u64) -> int;

/// A number drawn from a generator, and the generator's state after the
/// draw.
pub struct NumberDraw {
    pub value: u64,
    pub next: int,
}

/// A flag drawn from a generator, and the generator's state after the
/// draw.
pub struct FlagDraw {
    pub flag: bool,
    pub next: int,
}

/// What drawing a number of the half-open range from a generator in the
/// given state comes to.
pub uninterp spec fn below_draw(state: int, low: u64, high: u64) -> NumberDraw;

/// What drawing a flag with the given odds from a generator in the given
/// state comes to.
pub uninterp spec fn ratio_draw(state: int, numerator: u32, denominator: u32) -> FlagDraw;

/// `StdRng::seed_from_u64`: a generator whose sequence is fixed by the
/// seed.
#[verifier::external_body]
pub(crate) fn rng_from_seed(seed: u64) -> (rng: rand::rngs::StdRng)
    ensures
        rng_state(rng) == seeded_state(seed),
{
    <rand::rngs::StdRng as rand::SeedableRng>::seed_from_u64(seed)
}

/// `StdRng::from_entropy`: a generator seeded from the operating system.
/// The operating system's random source is taken to work; the call
/// panics where it fails.
#[verifier::external_body]
pub(crate) fn rng_from_entropy() -> rand::rngs::StdRng {
    <rand::rngs::StdRng as rand::SeedableRng>::from_entropy()
}

/// `Rng::gen_range(low..high)`: a number of the half-open range.  The
/// number and the generator's state afterwards are fixed by its state
/// before.
#[verifier::external_body]
pub(crate) fn rng_below(rng: &mut rand::rngs::StdRng, low: u64, high: u64) -> (r: u64)
    requires
        low < high,
    ensures
        low <= r < high,
        r == below_draw(rng_state(*old(rng)), low, high).value,
        rng_state(*final(rng)) == below_draw(rng_state(*old(rng)), low, high).next,
{
    rand::Rng::gen_range(rng, low..high)
}

/// `Rng::gen_ratio`: `true` with probability `numerator / denominator`;
/// always `true` where the two are equal, never where the numerator is 0.
/// The flag and the generator's state afterwards are fixed by its state
/// before.
#[verifier::external_body]
pub(crate) fn rng_ratio(rng: &mut rand::rngs::StdRng, numerator: u32, denominator: u32) -> (r: bool)
    requires
        denominator > 0,
        numerator <= denominator,
    ensures
        numerator == denominator ==> r,
        numerator == 0 ==> !r,
        r == ratio_draw(rng_state(*old(rng)), numerator, denominator).flag,
        rng_state(*final(rng)) == ratio_draw(rng_state(*old(rng)), numerator, denominator).next,
{
    rand::Rng::gen_ratio(rng, numerator, denominator)
}

} // verus!
