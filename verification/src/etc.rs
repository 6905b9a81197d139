//! The mutation coin.

use crate::consts::{MUTATION_CHANCE, MUTATION_CHANCE_OUT_OF};
use crate::random::{Draw, Prng};
use vstd::prelude::*;

verus! {

/// The record of one flip of the mutation coin that came back as `hit`.
pub open spec fn coin(hit: bool) -> Draw {
    Draw::Ratio { numerator: MUTATION_CHANCE, denominator: MUTATION_CHANCE_OUT_OF, hit }
}

/// The record of giving mutation its chance on a value: the flip of the
/// coin and, after a hit, the calls that drew the new value.
pub open spec fn chance(rerolled: bool, drawn: Seq<Draw>) -> Seq<Draw> {
    if rerolled {
        seq![coin(true)] + drawn
    } else {
        seq![coin(false)]
    }
}

/// Flips the mutation coin: `true` with probability
/// `MUTATION_CHANCE / MUTATION_CHANCE_OUT_OF`. The coin is flipped once, and
/// what it shows is the result.
pub fn is_mutated(rng: &mut Prng) -> (hit: bool)
    ensures
        final(rng).seeded_by() == old(rng).seeded_by(),
        final(rng).draws() == old(rng).draws().push(coin(hit)),
{
    rng.ratio(MUTATION_CHANCE, MUTATION_CHANCE_OUT_OF)
}

} // verus!
