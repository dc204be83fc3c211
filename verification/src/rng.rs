//! The seeded random generator, as far as the workload needs it.

use rand::rngs::StdRng;
use rand::{Rng, SeedableRng};
use vstd::prelude::*;

verus! {

/// The standard generator of `rand`.
#[verifier::external_type_specification]
#[verifier::external_body]
pub struct ExStdRng(StdRng);

/// What a generator holds: the endless row of 64-bit words that it yields from
/// here on, the next one at place zero.
pub uninterp spec fn words_of(rng: StdRng) -> Map<nat, u64>;

/// The 64-bit words that the generator made by `StdRng::seed_from_u64` from
/// this seed yields.
pub uninterp spec fn seeded_words(seed: u64) -> Map<nat, u64>;

/// The number of words, out of all 64-bit words, that `rand::Rng::random_ratio`
/// takes for a hit at these odds.
pub uninterp spec fn ratio_threshold(numerator: u32, denominator: u32) -> u64;

/// Calls `rand::SeedableRng::seed_from_u64` for `rand::rngs::StdRng`. Claimed:
/// the words that the generator yields depend on the seed alone. (It expands
/// the seed by fixed arithmetic into the key of a ChaCha stream cipher.)
#[verifier::external_body]
pub(crate) fn seeded(seed: u64) -> (rng: StdRng)
    ensures
        words_of(rng) == seeded_words(seed),
{
    StdRng::seed_from_u64(seed)
}

/// Calls `rand::Rng::random_ratio` on a `rand::rngs::StdRng`. Claimed: at odds
/// below one the call uses up the generator's next word, and it hits exactly
/// when that word is below a threshold that the odds alone determine. Odds of
/// one always hit and leave the generator as it was; odds of zero never hit.
/// The call panics on odds above one and on a zero denominator, which the
/// precondition leaves out.
#[verifier::external_body]
pub(crate) fn random_ratio(rng: &mut StdRng, numerator: u32, denominator: u32) -> (hit: bool)
    requires
        numerator <= denominator,
        0 < denominator,
    ensures
        numerator == denominator ==> hit && words_of(*final(rng)) == words_of(*old(rng)),
        numerator < denominator ==> hit == (words_of(*old(rng))[0] < ratio_threshold(
            numerator,
            denominator,
        )),
        numerator < denominator ==> forall|i: nat|
            #[trigger] words_of(*final(rng))[i] == words_of(*old(rng))[i + 1],
        numerator == 0 ==> !hit,
{
    rng.random_ratio(numerator, denominator)
}

} // verus!
