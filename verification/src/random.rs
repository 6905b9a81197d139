//! The pseudo-random generator that the simulation draws from.

use rand::rngs::OsRng;
use rand::rngs::StdRng;
use rand::Rng;
use rand::SeedableRng;
use vstd::prelude::*;

verus! {

/// `rand::rngs::StdRng`, carried through as a value that nothing is known
/// of.
#[verifier::external_type_specification]
#[verifier::external_body]
pub struct ExStdRng(StdRng);

/// `rand::SeedableRng::seed_from_u64` for `StdRng`. Nothing is claimed of the
/// generator that comes back.
#[verifier::external_body]
fn std_rng_from_seed(seed: u64) -> (rng: StdRng) {
    StdRng::seed_from_u64(seed)
}

/// `rand::SeedableRng::from_rng` for `StdRng`, fed by `rand::rngs::OsRng`.
/// Where the operating system gives no entropy the call returns an error,
/// and then no generator comes back. Nothing is claimed of a generator that
/// does come back.
#[verifier::external_body]
fn std_rng_try_from_os() -> (rng: Option<StdRng>) {
    StdRng::from_rng(OsRng).ok()
}

/// `rand::Rng::gen_range` on a half-open range of `u32`. The range must not
/// be empty, since the call panics on an empty one; the sample lies in it.
#[verifier::external_body]
fn std_rng_gen_range(rng: &mut StdRng, low: u32, high: u32) -> (sample: u32)
    requires
        low < high,
    ensures
        low <= sample < high,
{
    rng.gen_range(low..high)
}

/// `rand::Rng::gen_ratio`. The call panics on a zero denominator or a
/// numerator above the denominator. A ratio of one always gives `true`, a
/// ratio of zero always gives `false`; of any other ratio nothing is claimed.
#[verifier::external_body]
fn std_rng_gen_ratio(rng: &mut StdRng, numerator: u32, denominator: u32) -> (hit: bool)
    requires
        denominator > 0,
        numerator <= denominator,
    ensures
        numerator == denominator ==> hit,
        numerator == 0 ==> !hit,
{
    rng.gen_ratio(numerator, denominator)
}

/// One call made to a generator: what was asked of it and what came back.
pub enum Draw {
    /// A number was asked from `low..high`, and `sample` came back.
    Range { low: u32, high: u32, sample: u32 },
    /// A coin with the odds `numerator / denominator` was flipped, and `hit`
    /// came back.
    Ratio { numerator: u32, denominator: u32, hit: bool },
}

/// An owned pseudo-random generator. It keeps a record of what it was seeded
/// with and of every call made to it, so that what a function draws and what
/// it makes of it can be told apart.
pub struct Prng {
    rng: StdRng,
    seed: Ghost<Option<u64>>,
    drawn: Ghost<Seq<Draw>>,
}

impl Prng {
    /// The seed that the generator was made from, if it was made from one.
    pub closed spec fn seeded_by(&self) -> Option<u64> {
        self.seed@
    }

    /// The calls made to the generator so far, oldest first.
    pub closed spec fn draws(&self) -> Seq<Draw> {
        self.drawn@
    }

    /// A generator whose whole sequence is fixed by `seed`. It has not been
    /// drawn from yet.
    pub fn from_seed(seed: u64) -> (prng: Prng)
        ensures
            prng.seeded_by() == Some(seed),
            prng.draws() == Seq::<Draw>::empty(),
    {
        Prng { rng: std_rng_from_seed(seed), seed: Ghost(Some(seed)), drawn: Ghost(Seq::empty()) }
    }

    /// A generator seeded from the operating system, or nothing where the
    /// operating system gives no entropy. The generator has no seed of its
    /// own and has not been drawn from yet.
    pub fn from_entropy() -> (made: Option<Prng>)
        ensures
            made matches Some(prng) ==> prng.seeded_by() == None::<u64> && prng.draws()
                == Seq::<Draw>::empty(),
    {
        match std_rng_try_from_os() {
            Some(rng) => Some(Prng { rng, seed: Ghost(None), drawn: Ghost(Seq::empty()) }),
            None => None,
        }
    }

    /// Draws from `low..high`: one call is made to the generator, and what
    /// comes back is the result.
    pub fn range(&mut self, low: u32, high: u32) -> (sample: u32)
        requires
            low < high,
        ensures
            low <= sample < high,
            final(self).seeded_by() == old(self).seeded_by(),
            final(self).draws() == old(self).draws().push(Draw::Range { low, high, sample }),
    {
        let sample = std_rng_gen_range(&mut self.rng, low, high);
        self.drawn = Ghost(self.drawn@.push(Draw::Range { low, high, sample }));
        sample
    }

    /// Flips a coin that shows `true` with probability
    /// `numerator / denominator`: one call is made to the generator, and
    /// what comes back is the result.
    pub fn ratio(&mut self, numerator: u32, denominator: u32) -> (hit: bool)
        requires
            denominator > 0,
            numerator <= denominator,
        ensures
            numerator == denominator ==> hit,
            numerator == 0 ==> !hit,
            final(self).seeded_by() == old(self).seeded_by(),
            final(self).draws() == old(self).draws().push(
                Draw::Ratio { numerator, denominator, hit },
            ),
    {
        let hit = std_rng_gen_ratio(&mut self.rng, numerator, denominator);
        self.drawn = Ghost(self.drawn@.push(Draw::Ratio { numerator, denominator, hit }));
        hit
    }
}

} // verus!
