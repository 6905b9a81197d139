//! Configuration constants of the simulation.

use vstd::prelude::*;

verus! {

/// Half of the dish's side length, in grid positions.
pub const RADIUS_PETRI_DISH: i32 = 180;

/// Number of codons in every genome.
pub const COUNT_GENES: usize = 16;

/// Raw steps in one whole unit of a resource (energy, health, toxin).
pub const UNIT: i64 = 1_000_000;

/// A mutation happens with probability
/// `MUTATION_CHANCE / MUTATION_CHANCE_OUT_OF`.
pub const MUTATION_CHANCE: u32 = 1;

/// Denominator of the mutation probability.
pub const MUTATION_CHANCE_OUT_OF: u32 = 10;

/// A mutation makes a cell immobile with probability
/// `FIXED_CHANCE / FIXED_CHANCE_OUT_OF`.
pub const FIXED_CHANCE: u32 = 1;

/// Denominator of the probability that a mutation makes a cell immobile.
pub const FIXED_CHANCE_OUT_OF: u32 = 10;

/// How many times its own health an attacker takes from its victim.
pub const AGGRESSION: i64 = 3;

} // verus!
