//! Behaviour shared by everything that mutation can touch.

use crate::random::{Draw, Prng};
use vstd::prelude::*;

verus! {

/// A value that mutation may replace.
pub trait Mutable {
    /// Gives mutation its chance on this value; `true` if it was rerolled.
    fn mutate(&mut self, rng: &mut Prng) -> (rerolled: bool);
}

/// An enum one of whose variants can be drawn at random.
pub trait GetRandomVariant: Sized {
    /// Number of variants.
    const VARIANT_COUNT: usize;

    /// A freshly drawn variant; the receiver only names the type.
    fn get_rand_variant(self, rng: &mut Prng) -> (fresh: Self);

    /// The number of a variant, drawn uniformly: one number is drawn from
    /// below `VARIANT_COUNT`, and it is the result.
    fn gen_idx_variant(rng: &mut Prng) -> (idx: usize)
        requires
            0 < Self::VARIANT_COUNT <= u32::MAX,
        ensures
            idx < Self::VARIANT_COUNT,
            final(rng).seeded_by() == old(rng).seeded_by(),
            final(rng).draws() == old(rng).draws().push(
                Draw::Range { low: 0, high: Self::VARIANT_COUNT as u32, sample: idx as u32 },
            ),
    {
        rng.range(0, Self::VARIANT_COUNT as u32) as usize
    }
}

} // verus!
