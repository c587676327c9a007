//! Randomness for spawning and slicing, drawn from the `rand` crate.
//!
//! Nothing is assumed about which value comes back beyond its range, so
//! everything built on these draws is verified for every possible outcome.

use vstd::prelude::*;

use rand::distributions::Distribution;
use rand::Rng;

verus! {

/// Relies on rand's `Rng::gen_range` over `thread_rng`: a uniform draw from
/// the half-open range `min..max`, which panics only when the range is
/// empty.
#[verifier::external_body]
pub fn randint(min: i32, max: i32) -> (r: i32)
    requires
        min < max,
    ensures
        min <= r < max,
{
    let mut rng = rand::thread_rng();
    rng.gen_range(min..max)
}

/// Relies on rand's `Bernoulli::from_ratio` and `Distribution::sample`: a
/// coin flip that comes up true with probability numerator/denominator.
/// `from_ratio` fails only when the ratio is no probability; its sampler
/// never returns true for a ratio of zero and always does for a ratio of
/// one.
#[verifier::external_body]
fn bernoulli_trial(numerator: u32, denominator: u32) -> (r: bool)
    requires
        0 < denominator,
        numerator <= denominator,
    ensures
        numerator == 0 ==> !r,
        numerator == denominator ==> r,
{
    let trial = rand::distributions::Bernoulli::from_ratio(numerator, denominator).unwrap();
    trial.sample(&mut rand::thread_rng())
}

/// A Bernoulli trial that succeeds with the given probability in percent.
pub fn probably(percent: u32) -> (r: bool)
    requires
        percent <= 100,
    ensures
        percent == 0 ==> !r,
        percent == 100 ==> r,
{
    bernoulli_trial(percent, 100)
}

} // verus!
