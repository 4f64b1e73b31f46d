//! The random number generator behind the workload: `rand`'s `SmallRng`,
//! together with a record of how it was seeded and of every draw asked of it.
//!
//! What the generator returns rests on its internal state, which nothing here
//! can see, and `rand` documents that stream as dependent on the platform and
//! the library version; the contracts below state what is handed to the
//! generator, and of each draw only what holds of every outcome.
use rand::rngs::SmallRng;
use rand::Rng;
use rand::SeedableRng;
use vstd::prelude::*;

verus! {

/// `rand::rngs::SmallRng`, carried through the workload generator as an
/// opaque value.
#[verifier::external_type_specification]
#[verifier::external_body]
pub struct ExSmallRng(SmallRng);

/// One draw asked of a generator, with what was handed to it.
#[derive(Clone, Copy, Debug, PartialEq, Eq, Structural)]
pub enum DrawRequest {
    /// `true` with probability `numerator / denominator`.
    Ratio(u32, u32),
    /// A value in the inclusive range `low..=high`.
    Range(u64, u64),
}

/// A `SmallRng` with the seed it was made from and the draws asked of it so
/// far, in order. Only the functions of this module make or advance one, each
/// recording exactly what it hands to `rand`.
pub struct SeededRng {
    rng: SmallRng,
    seed: Ghost<u64>,
    requests: Ghost<Seq<DrawRequest>>,
}

impl SeededRng {
    /// The seed the generator was made from.
    pub closed spec fn seed(&self) -> u64 {
        self.seed@
    }

    /// The draws asked of the generator since it was seeded, in order.
    pub closed spec fn requests(&self) -> Seq<DrawRequest> {
        self.requests@
    }
}

/// Calls `SeedableRng::seed_from_u64` for `SmallRng` and records the seed
/// handed to it; no draw has been asked yet. Nothing is claimed of the stream
/// the generator will give.
#[verifier::external_body]
pub(crate) fn seeded_rng(seed: u64) -> (r: SeededRng)
    ensures
        r.seed() == seed,
        r.requests() == Seq::<DrawRequest>::empty(),
{
    SeededRng { rng: SmallRng::seed_from_u64(seed), seed: Ghost(seed), requests: Ghost(Seq::empty()) }
}

/// Calls `Rng::gen_ratio`, which is `true` with probability
/// `numerator / denominator`, and records the draw. Its source panics when
/// `denominator == 0` or `numerator > denominator`, so those inputs are
/// excluded; it returns `false` whenever `numerator == 0` and `true` whenever
/// `numerator == denominator`. The outcome otherwise depends on the
/// generator's state and is left open.
#[verifier::external_body]
pub(crate) fn draw_ratio(rng: &mut SeededRng, numerator: u32, denominator: u32) -> (r: bool)
    requires
        0 < denominator,
        numerator <= denominator,
    ensures
        numerator == 0 ==> !r,
        numerator == denominator ==> r,
        final(rng).seed() == old(rng).seed(),
        final(rng).requests() == old(rng).requests().push(DrawRequest::Ratio(numerator, denominator)),
{
    rng.requests = Ghost(rng.requests@.push(DrawRequest::Ratio(numerator, denominator)));
    rng.rng.gen_ratio(numerator, denominator)
}

/// Calls `Rng::gen_range` with the inclusive range `low..=high` of `u64`, and
/// records the draw. Its source panics on an empty range, so `low <= high` is
/// required; the value drawn lies in the range, and which one it is depends
/// on the generator's state.
#[verifier::external_body]
pub(crate) fn draw_in_range(rng: &mut SeededRng, low: u64, high: u64) -> (r: u64)
    requires
        low <= high,
    ensures
        low <= r <= high,
        final(rng).seed() == old(rng).seed(),
        final(rng).requests() == old(rng).requests().push(DrawRequest::Range(low, high)),
{
    rng.requests = Ghost(rng.requests@.push(DrawRequest::Range(low, high)));
    rng.rng.gen_range(low..=high)
}

} // verus!
