//! The cell: its resources, and what each gene does to it.

use crate::amount::{divide, minus, plus, quotient, saturate, saturated};
use crate::consts::{AGGRESSION, COUNT_GENES, FIXED_CHANCE, FIXED_CHANCE_OUT_OF, UNIT};
use crate::etc::{chance, is_mutated};
use crate::genome::{default_codon, mutation_of, program_chances, Gene, Genome, TypeSynthesis};
use crate::math::{Direction, Position};
use crate::random::{Draw, Prng};
use crate::traits::Mutable;
use crate::world::{World, HEIGHT};
use vstd::prelude::*;

verus! {

/// The tag that tells kin from rivals.
pub type Family = u8;

/// A cell lives only with at least this much energy (1.3 units).
pub const ENERGY_FLOOR: i64 = 1_300_000;

/// A cell lives only with less than this much energy (1000 units).
pub const ENERGY_CEILING: i64 = 1_000_000_000;

/// A cell reproduces only with more than this much energy (2.5 units).
pub const ENERGY_TO_REPRODUCE: i64 = 2_500_000;

/// One organism of the dish.
#[derive(Debug, Clone, Copy)]
pub struct Cell {
    pub family: Family,
    /// An immobile cell does not fall.
    pub fixed: bool,
    /// Ticks since birth or since the last reproduction.
    pub lifetime: u32,
    pub max_lifetime: u32,
    pub health: i64,
    pub energy: i64,
    pub toxin: i64,
    /// Display colour; it plays no part in the simulation.
    pub color: (u8, u8, u8),
    pub genome: Genome,
}

/// What energy synthesis yields at the given energy: 5 / (2.25 × energy)
/// units, which carries the sign of the energy. At zero energy the yield is
/// the largest amount there is.
pub open spec fn synthesis_yield(energy: int) -> int {
    if energy > 0 {
        quotient(20 * UNIT * UNIT, 9 * energy)
    } else if energy < 0 {
        -quotient(20 * UNIT * UNIT, 9 * (-energy))
    } else {
        i64::MAX as int
    }
}

/// What one tick of living costs: 0.003 × `max_lifetime` × health × depth / 2
/// units, where `depth` is the distance to the bottom of the dish.
pub open spec fn upkeep(max_lifetime: int, health: int, depth: int) -> int {
    quotient(3 * max_lifetime * health * depth, 2000)
}

/// How much energy passes from the richer to the poorer of two kin: half of
/// what the richer has more, rounded down.
pub open spec fn transfer(richer: int, poorer: int) -> int {
    (richer - poorer) / 2
}

/// What an attacker takes: `AGGRESSION` times its own health.
pub open spec fn loot(health: int) -> int {
    saturate(AGGRESSION * health)
}

/// What energy synthesis yields at the given energy.
fn yield_at(energy: i64) -> (gain: i64)
    ensures
        gain == synthesis_yield(energy as int),
{
    let pool: i128 = 20 * (UNIT as i128) * (UNIT as i128);
    if energy > 0 {
        let q = divide(pool, 9 * (energy as i128));
        proof {
            crate::amount::lemma_quotient_bounds(pool as int, 9 * energy);
        }
        q as i64
    } else if energy < 0 {
        let q = divide(pool, 9 * (-(energy as i128)));
        proof {
            crate::amount::lemma_quotient_bounds(pool as int, 9 * (-energy));
        }
        (-q) as i64
    } else {
        i64::MAX
    }
}

/// The energy that is left of `energy` when one tick of living is paid.
fn after_upkeep(energy: i64, max_lifetime: u32, health: i64, depth: i32) -> (left: i64)
    ensures
        left == saturate(energy - upkeep(max_lifetime as int, health as int, depth as int)),
{
    let rate: i128 = 3 * (max_lifetime as i128);
    assert(-0x3_0000_0000_0000_0000 <= rate * depth <= 0x3_0000_0000_0000_0000)
        by (nonlinear_arith)
        requires
            0 <= rate <= 0x3_0000_0000,
            -0x8000_0000 <= depth <= 0x8000_0000,
    ;
    let scaled: i128 = rate * (depth as i128);
    let ghost product: int = scaled * health;
    assert(product == 3 * max_lifetime * health * depth) by (nonlinear_arith)
        requires
            product == scaled * health,
            scaled == rate * depth,
            rate == 3 * max_lifetime,
    ;
    match scaled.checked_mul(health as i128) {
        Some(fits) => {
            proof {
                crate::amount::lemma_quotient_bounds(product, 2000);
            }
            saturated(energy as i128 - divide(fits, 2000))
        },
        None => {
            let up = (scaled > 0) == (health > 0);
            proof {
                let big: int = 0x1_0000_0000_0000_0000_0000;
                if product > i128::MAX {
                    assert(up) by (nonlinear_arith)
                        requires
                            scaled * health > 0,
                            up == ((scaled > 0) == (health > 0)),
                    ;
                    assert(product / 2000 >= big) by (nonlinear_arith)
                        requires
                            product >= 2000 * big,
                    ;
                } else {
                    assert(!up) by (nonlinear_arith)
                        requires
                            scaled * health < 0,
                            up == ((scaled > 0) == (health > 0)),
                    ;
                    assert((-product) / 2000 >= big) by (nonlinear_arith)
                        requires
                            -product >= 2000 * big,
                    ;
                }
            }
            if up {
                i64::MIN
            } else {
                i64::MAX
            }
        },
    }
}

/// Whether a cell can go to `pos`: the position lies strictly inside the
/// dish and no cell stands there, in either grid.
pub open spec fn is_open(
    grid: Map<Position, Cell>,
    next: Map<Position, Cell>,
    pos: Position,
) -> bool {
    &&& World::is_valid(pos)
    &&& !grid.contains_key(pos)
    &&& !next.contains_key(pos)
}

/// The neighbour of `pos` in direction `dir`.
pub open spec fn neighbour(pos: Position, dir: Direction) -> Position {
    pos.shifted(dir.delta().0, dir.delta().1)
}

/// Where gravity takes a cell that stands at `pos`. An immobile cell stays.
/// A mobile one drops straight down if that position is open. Otherwise it
/// slides to a lower diagonal: with `lot` 0 it tries the left one first,
/// with any other `lot` the right one; if neither is open it stays.
pub open spec fn fall_target(
    fixed: bool,
    pos: Position,
    grid: Map<Position, Cell>,
    next: Map<Position, Cell>,
    lot: int,
) -> Position {
    let down = neighbour(pos, Direction::Down);
    let left = neighbour(pos, Direction::LeftDown);
    let right = neighbour(pos, Direction::RightDown);
    if fixed {
        pos
    } else if is_open(grid, next, down) {
        down
    } else if lot == 0 {
        if is_open(grid, next, left) {
            left
        } else if is_open(grid, next, right) {
            right
        } else {
            pos
        }
    } else {
        if is_open(grid, next, right) {
            right
        } else if is_open(grid, next, left) {
            left
        } else {
            pos
        }
    }
}

/// The record of what gravity draws for a cell that stands at `pos`:
/// nothing if the cell is immobile or drops straight down, else the lot for
/// the side of the slide.
pub open spec fn gravity_draws(
    fixed: bool,
    pos: Position,
    grid: Map<Position, Cell>,
    next: Map<Position, Cell>,
    lot: int,
) -> Seq<Draw> {
    if fixed || is_open(grid, next, neighbour(pos, Direction::Down)) {
        Seq::empty()
    } else {
        seq![Draw::Range { low: 0, high: 2, sample: lot as u32 }]
    }
}

/// Whether `drawn` is the record of giving mutation its chance on the cell
/// `before`, and `after` what came of it: after a miss the same cell, after
/// a hit a mutant whose genome and other fields are what was drawn.
pub open spec fn mutation_recorded(before: Cell, after: Cell, drawn: Seq<Draw>) -> bool {
    ||| after == before && drawn == chance(false, Seq::empty())
    ||| {
        &&& after.is_mutant_of(before)
        &&& exists|rerolled: Seq<bool>|
            {
                &&& #[trigger] mutation_of(before.genome.codons(), rerolled, after.genome.codons())
                &&& drawn == chance(
                    true,
                    program_chances(rerolled, after.genome.codons(), COUNT_GENES as nat)
                        + after.redrawn_by(),
                )
            }
    }
}

/// What a cell's turn works on: the cell, where it stands, and the grid
/// under construction.
#[verifier::ext_equal]
pub struct Turn {
    pub cell: Cell,
    pub pos: Position,
    pub next: Map<Position, Cell>,
}

/// The turn after the cell has executed `gene`. `child` is the cell that a
/// reproduction places.
pub open spec fn acted(turn: Turn, grid: Map<Position, Cell>, gene: Gene, child: Cell) -> Turn {
    let Turn { cell, pos, next } = turn;
    match gene {
        Gene::MovePosition(dir) => {
            let target = neighbour(pos, dir);
            if is_open(grid, next, target) {
                Turn { cell, pos: target, next }
            } else {
                turn
            }
        },
        Gene::MoveEnergy(dir) => {
            let target = neighbour(pos, dir);
            if World::is_valid(target) && next.contains_key(target) {
                let (mine, theirs) = cell.after_sharing(next[target]);
                Turn { cell: mine, pos, next: next.insert(target, theirs) }
            } else {
                turn
            }
        },
        Gene::Reproduction(dir) => {
            let target = neighbour(pos, dir);
            if World::is_valid(target) && cell.energy > ENERGY_TO_REPRODUCE {
                Turn {
                    cell: cell.divided(),
                    pos,
                    next: if is_open(grid, next, target) {
                        next.insert(target, child)
                    } else {
                        next
                    },
                }
            } else {
                turn
            }
        },
        Gene::Synthesis(kind) => Turn { cell: cell.synthesized(kind), pos, next },
        Gene::Attack(dir) => {
            let target = neighbour(pos, dir);
            if next.contains_key(target) {
                let (mine, theirs) = cell.after_strike(next[target]);
                Turn { cell: mine, pos, next: next.insert(target, theirs) }
            } else {
                turn
            }
        },
        Gene::Stop => Turn { cell: Cell { genome: cell.genome.rewound(), ..cell }, pos, next },
        Gene::Nothing => turn,
    }
}

/// The turn after the cell has had it: gravity, the gene under the program
/// counter, the advance of the counter, and the upkeep at the depth where
/// the cell then stands.
pub open spec fn updated(turn: Turn, grid: Map<Position, Cell>, lot: int, child: Cell) -> Turn {
    let fallen = fall_target(turn.cell.fixed, turn.pos, grid, turn.next, lot);
    let gene = turn.cell.genome.codons()[turn.cell.genome.spec_step() as int];
    let after = acted(Turn { pos: fallen, ..turn }, grid, gene, child);
    Turn {
        cell: (Cell { genome: after.cell.genome.advanced(), ..after.cell }).metabolized(
            HEIGHT - after.pos.y,
        ),
        ..after
    }
}

/// Whether the cell of `turn` divides in its turn: the gene under its
/// program counter is a reproduction toward a position inside the dish, and
/// the cell has the energy for it.
pub open spec fn divides(turn: Turn, grid: Map<Position, Cell>, lot: int) -> bool {
    let fallen = fall_target(turn.cell.fixed, turn.pos, grid, turn.next, lot);
    match turn.cell.genome.codons()[turn.cell.genome.spec_step() as int] {
        Gene::Reproduction(dir) => {
            &&& World::is_valid(neighbour(fallen, dir))
            &&& turn.cell.energy > ENERGY_TO_REPRODUCE
        },
        _ => false,
    }
}

/// The record of what a turn draws: what gravity draws and, if the cell
/// divides, what the mutation of its child draws.
pub open spec fn turn_draws(
    turn: Turn,
    grid: Map<Position, Cell>,
    lot: int,
    child_drawn: Seq<Draw>,
) -> Seq<Draw> {
    gravity_draws(turn.cell.fixed, turn.pos, grid, turn.next, lot) + (if divides(turn, grid, lot) {
        child_drawn
    } else {
        Seq::empty()
    })
}

/// Whether `after` is what `before` becomes in one turn in which `lot` is
/// what gravity draws and `child` is the newborn that `child_drawn` makes of
/// the divided cell.
pub open spec fn turn_recorded(
    before: Turn,
    grid: Map<Position, Cell>,
    lot: int,
    child: Cell,
    child_drawn: Seq<Draw>,
    after: Turn,
) -> bool {
    &&& turn_taken(before, grid, lot, child, after)
    &&& child.is_newborn_by(before.cell.divided(), child_drawn)
}

/// Whether `after` is what `before` can become in one turn: some lot decides
/// the slide and some newborn of the divided cell is the child.
pub open spec fn turn_taken(
    before: Turn,
    grid: Map<Position, Cell>,
    lot: int,
    child: Cell,
    after: Turn,
) -> bool {
    &&& 0 <= lot < 2
    &&& child.is_newborn_of(before.cell.divided())
    &&& after =~= updated(before, grid, lot, child)
}

impl Cell {
    /// Whether the cell lives: energy within 1.3 units and below 1000, and
    /// health above zero.
    pub open spec fn spec_is_alive(&self) -> bool {
        &&& ENERGY_FLOOR <= self.energy < ENERGY_CEILING
        &&& self.health > 0
    }

    /// The cell after a synthesis of the given kind. Energy synthesis adds
    /// its yield to the energy; toxin and health synthesis turn one unit of
    /// energy into one unit of toxin or health.
    pub open spec fn synthesized(self, kind: TypeSynthesis) -> Cell {
        match kind {
            TypeSynthesis::Energy => Cell {
                energy: saturate(self.energy + synthesis_yield(self.energy as int)) as i64,
                ..self
            },
            TypeSynthesis::Toxin => Cell {
                energy: saturate(self.energy - UNIT) as i64,
                toxin: saturate(self.toxin + UNIT) as i64,
                ..self
            },
            TypeSynthesis::Health => Cell {
                energy: saturate(self.energy - UNIT) as i64,
                health: saturate(self.health + UNIT) as i64,
                ..self
            },
        }
    }

    /// The parent after a division: half the energy, half the toxin, and a
    /// lifetime that starts over.
    pub open spec fn divided(self) -> Cell {
        Cell {
            energy: quotient(self.energy as int, 2) as i64,
            toxin: quotient(self.toxin as int, 2) as i64,
            lifetime: 0,
            ..self
        }
    }

    /// The cell after one tick of living at the given depth: the upkeep is
    /// taken from its energy and it is one tick older.
    pub open spec fn metabolized(self, depth: int) -> Cell {
        Cell {
            energy: saturate(
                self.energy - upkeep(self.max_lifetime as int, self.health as int, depth),
            ) as i64,
            lifetime: if self.lifetime < u32::MAX {
                (self.lifetime + 1) as u32
            } else {
                self.lifetime
            },
            ..self
        }
    }

    /// The energies of two cells after the first has levelled with the
    /// second: the richer hands half the difference to the poorer.
    pub open spec fn levelled(mine: int, theirs: int) -> (int, int) {
        if mine > theirs {
            (mine - transfer(mine, theirs), theirs + transfer(mine, theirs))
        } else {
            (mine + transfer(theirs, mine), theirs - transfer(theirs, mine))
        }
    }

    /// This cell and `kin` after the cell has levelled energy with it: the
    /// richer of the two hands half of the difference to the poorer. Cells of
    /// different families are left alone.
    pub open spec fn after_sharing(self, kin: Cell) -> (Cell, Cell) {
        if self.family == kin.family {
            let (mine, theirs) = Cell::levelled(self.energy as int, kin.energy as int);
            (Cell { energy: mine as i64, ..self }, Cell { energy: theirs as i64, ..kin })
        } else {
            (self, kin)
        }
    }

    /// This cell and `rival` after the cell has attacked it: the attacker
    /// gains its loot as energy, and the rival loses as much of both energy
    /// and health. Kin are immune.
    pub open spec fn after_strike(self, rival: Cell) -> (Cell, Cell) {
        if self.family != rival.family {
            let k = loot(self.health as int);
            (
                Cell { energy: saturate(self.energy + k) as i64, ..self },
                Cell {
                    energy: saturate(rival.energy - k) as i64,
                    health: saturate(rival.health - k) as i64,
                    ..rival
                },
            )
        } else {
            (self, rival)
        }
    }

    /// Whether this cell is what a mutation can make of `origin`: the
    /// resources and the age stay, the program counter is at the start, and
    /// family, colour and `max_lifetime` are drawn from their ranges.
    pub open spec fn is_mutant_of(self, origin: Cell) -> bool {
        &&& self.energy == origin.energy
        &&& self.health == origin.health
        &&& self.toxin == origin.toxin
        &&& self.lifetime == origin.lifetime
        &&& self.genome.wf()
        &&& self.genome.spec_step() == 0
        &&& self.genome.filled() == origin.genome.filled()
        &&& self.family < 255
        &&& self.max_lifetime < 1000
        &&& 50 <= self.color.0 < 200
        &&& 50 <= self.color.1 < 200
        &&& 50 <= self.color.2 < 200
    }

    /// The record of the calls that draw what a mutation gives a cell beside
    /// its genome: the coin for the `fixed` flag, the three channels of the
    /// colour, the family and `max_lifetime`, in this order.
    pub open spec fn redrawn_by(self) -> Seq<Draw> {
        seq![
            Draw::Ratio {
                numerator: FIXED_CHANCE,
                denominator: FIXED_CHANCE_OUT_OF,
                hit: self.fixed,
            },
            Draw::Range { low: 50, high: 200, sample: self.color.0 as u32 },
            Draw::Range { low: 50, high: 200, sample: self.color.1 as u32 },
            Draw::Range { low: 50, high: 200, sample: self.color.2 as u32 },
            Draw::Range { low: 0, high: 255, sample: self.family as u32 },
            Draw::Range { low: 0, high: 1000, sample: self.max_lifetime },
        ]
    }

    /// Whether this cell is a child that `parent`, as it is after its
    /// division, can have: a copy whose program starts over, or a mutant of
    /// that copy.
    pub open spec fn is_newborn_of(self, parent: Cell) -> bool {
        let copy = Cell { genome: parent.genome.rewound(), ..parent };
        self == copy || self.is_mutant_of(copy)
    }

    /// Whether this cell is the child that `drawn` makes of `parent`, as it
    /// is after its division: mutation has its chance on a copy whose
    /// program starts over.
    pub open spec fn is_newborn_by(self, parent: Cell, drawn: Seq<Draw>) -> bool {
        mutation_recorded(Cell { genome: parent.genome.rewound(), ..parent }, self, drawn)
    }

    /// Whether the cell lives.
    #[verifier::when_used_as_spec(spec_is_alive)]
    pub fn is_alive(&self) -> (alive: bool)
        ensures
            alive == self.spec_is_alive(),
    {
        self.energy >= ENERGY_FLOOR && self.energy < ENERGY_CEILING && self.health > 0
    }

    /// A newborn: 10 units of energy, 1 unit of health, no toxin, the default
    /// program, and a family and a colour drawn at random: first the family,
    /// then the three channels of the colour.
    pub fn new(rng: &mut Prng) -> (cell: Cell)
        ensures
            cell.is_alive(),
            !cell.fixed,
            cell.family < 255,
            cell.lifetime == 0,
            cell.max_lifetime == 16,
            cell.health == UNIT,
            cell.energy == 10 * UNIT,
            cell.toxin == 0,
            50 <= cell.color.0 < 200,
            50 <= cell.color.1 < 200,
            50 <= cell.color.2 < 200,
            cell.genome.wf(),
            cell.genome.spec_step() == 0,
            cell.genome.codons() == Seq::new(COUNT_GENES as nat, |i: int| default_codon(i)),
            final(rng).seeded_by() == old(rng).seeded_by(),
            final(rng).draws() == old(rng).draws() + seq![
                Draw::Range { low: 0, high: 255, sample: cell.family as u32 },
                Draw::Range { low: 50, high: 200, sample: cell.color.0 as u32 },
                Draw::Range { low: 50, high: 200, sample: cell.color.1 as u32 },
                Draw::Range { low: 50, high: 200, sample: cell.color.2 as u32 },
            ],
    {
        Self {
            fixed: false,
            family: rng.range(0, 255) as u8,
            lifetime: 0,
            max_lifetime: 16,
            health: UNIT,
            energy: 10 * UNIT,
            toxin: 0,
            color: Self::rand_color(rng),
            genome: Genome::new(),
        }
    }

    /// A display colour with every channel drawn from `50..200`.
    fn rand_color(rng: &mut Prng) -> (color: (u8, u8, u8))
        ensures
            50 <= color.0 < 200,
            50 <= color.1 < 200,
            50 <= color.2 < 200,
            final(rng).seeded_by() == old(rng).seeded_by(),
            final(rng).draws() == old(rng).draws() + seq![
                Draw::Range { low: 50, high: 200, sample: color.0 as u32 },
                Draw::Range { low: 50, high: 200, sample: color.1 as u32 },
                Draw::Range { low: 50, high: 200, sample: color.2 as u32 },
            ],
    {
        (rng.range(50, 200) as u8, rng.range(50, 200) as u8, rng.range(50, 200) as u8)
    }

    /// Divides the cell if it has more than 2.5 units of energy: the parent
    /// keeps half of its energy and toxin and starts its lifetime over, and
    /// the child is a copy of it whose program starts over and on which
    /// mutation had its chance. A cell with less is left as it is.
    pub fn reproduction(&mut self, rng: &mut Prng) -> (child: Option<Cell>)
        ensures
            old(self).energy <= ENERGY_TO_REPRODUCE ==> child is None && *final(self) == *old(self),
            old(self).energy > ENERGY_TO_REPRODUCE ==> {
                &&& *final(self) == old(self).divided()
                &&& child is Some
                &&& child->0.is_newborn_of(*final(self))
                &&& child->0.genome.wf()
            },
            final(rng).seeded_by() == old(rng).seeded_by(),
            old(self).energy <= ENERGY_TO_REPRODUCE ==> final(rng).draws() == old(rng).draws(),
            old(self).energy > ENERGY_TO_REPRODUCE ==> exists|drawn: Seq<Draw>|
                {
                    &&& #[trigger] child->0.is_newborn_by(*final(self), drawn)
                    &&& final(rng).draws() == old(rng).draws() + drawn
                },
    {
        proof {
            use_type_invariant(&self.genome);
            self.genome.lemma_rewound();
        }
        if self.energy > ENERGY_TO_REPRODUCE {
            self.energy = self.energy / 2;
            self.lifetime = 0;
            self.toxin = self.toxin / 2;

            let mut new_cell = *self;
            new_cell.genome.reset();
            let ghost copy = new_cell;
            let ghost before = rng.draws();
            let mutated = new_cell.mutate(rng);
            proof {
                let drawn = rng.draws().subrange(before.len() as int, rng.draws().len() as int);
                assert(rng.draws() =~= before + drawn);
                if mutated {
                    let rerolled = choose|rerolled: Seq<bool>|
                        {
                            &&& #[trigger] mutation_of(
                                copy.genome.codons(),
                                rerolled,
                                new_cell.genome.codons(),
                            )
                            &&& rng.draws() == before + chance(
                                true,
                                program_chances(
                                    rerolled,
                                    new_cell.genome.codons(),
                                    COUNT_GENES as nat,
                                ) + new_cell.redrawn_by(),
                            )
                        };
                    assert(drawn =~= chance(
                        true,
                        program_chances(rerolled, new_cell.genome.codons(), COUNT_GENES as nat)
                            + new_cell.redrawn_by(),
                    ));
                } else {
                    assert(drawn =~= chance(false, Seq::empty()));
                }
                assert(new_cell.is_newborn_by(*self, drawn));
            }
            return Some(new_cell);
        }
        None
    }

    /// Where gravity takes the cell from `pos` when `lot` decides the side of
    /// a slide. See `fall_target`.
    pub fn fall(&self, pos: Position, world: &World, lot: u32) -> (target: Position)
        requires
            world.wf(),
            World::is_valid(pos),
        ensures
            target == fall_target(self.fixed, pos, world.grid(), world.next_grid(), lot as int),
    {
        if self.fixed {
            return pos;
        }
        let d_pos = pos + Direction::Down;
        let (l_pos, r_pos) = (pos + Direction::LeftDown, pos + Direction::RightDown);
        let (open_l, open_r) = (world.is_open_pos(l_pos), world.is_open_pos(r_pos));

        if world.is_open_pos(d_pos) {
            return d_pos;
        }
        if lot == 0 {
            if open_l {
                l_pos
            } else if open_r {
                r_pos
            } else {
                pos
            }
        } else {
            if open_r {
                r_pos
            } else if open_l {
                l_pos
            } else {
                pos
            }
        }
    }

    /// Lets the cell fall. An immobile cell and one that drops straight down
    /// draw nothing; any other draws one lot from `0..2`, which decides the
    /// side of its slide. See `fall_target`.
    pub fn update_gravity(&mut self, self_pos: &mut Position, world: &mut World)
        requires
            old(world).wf(),
            World::is_valid(*old(self_pos)),
        ensures
            *final(self) == *old(self),
            final(world).wf(),
            final(world).grid() == old(world).grid(),
            final(world).next_grid() == old(world).next_grid(),
            final(world).generator().seeded_by() == old(world).generator().seeded_by(),
            exists|lot: int|
                {
                    &&& 0 <= lot < 2
                    &&& *final(self_pos) == #[trigger] fall_target(
                        old(self).fixed,
                        *old(self_pos),
                        old(world).grid(),
                        old(world).next_grid(),
                        lot,
                    )
                    &&& final(world).generator().draws() == old(world).generator().draws()
                        + gravity_draws(
                        old(self).fixed,
                        *old(self_pos),
                        old(world).grid(),
                        old(world).next_grid(),
                        lot,
                    )
                },
    {
        let ghost grid = world.grid();
        let ghost next = world.next_grid();
        let ghost start = *self_pos;
        let ghost drawn = world.generator().draws();
        if self.fixed {
            assert(*self_pos == fall_target(self.fixed, start, grid, next, 0));
            assert(world.generator().draws() =~= drawn + gravity_draws(
                self.fixed,
                start,
                grid,
                next,
                0,
            ));
            return ;
        }
        if world.is_open_pos(*self_pos + Direction::Down) {
            *self_pos = *self_pos + Direction::Down;
            assert(*self_pos == fall_target(self.fixed, start, grid, next, 0));
            assert(world.generator().draws() =~= drawn + gravity_draws(
                self.fixed,
                start,
                grid,
                next,
                0,
            ));
            return ;
        }
        let k = world.rng().range(0, 2);
        *self_pos = self.fall(*self_pos, world, k);
        assert(*self_pos == fall_target(self.fixed, start, grid, next, k as int));
        assert(world.generator().draws() =~= drawn + gravity_draws(
            self.fixed,
            start,
            grid,
            next,
            k as int,
        ));
    }

    /// Gives the cell its turn: gravity, the gene under the program counter,
    /// the advance of the counter, and the upkeep. What the turn draws is
    /// the lot of gravity and, if the cell divides, the mutation of its
    /// child. See `updated` and `turn_draws`.
    pub fn update(&mut self, self_pos: &mut Position, world: &mut World)
        requires
            old(world).wf(),
            World::is_valid(*old(self_pos)),
        ensures
            final(world).wf(),
            old(world).settled() ==> final(world).settled(),
            final(world).grid() == old(world).grid(),
            World::is_valid(*final(self_pos)),
            final(world).generator().seeded_by() == old(world).generator().seeded_by(),
            exists|lot: int, child: Cell, child_drawn: Seq<Draw>|
                {
                    &&& #[trigger] turn_recorded(
                        Turn { cell: *old(self), pos: *old(self_pos), next: old(world).next_grid() },
                        old(world).grid(),
                        lot,
                        child,
                        child_drawn,
                        Turn {
                            cell: *final(self),
                            pos: *final(self_pos),
                            next: final(world).next_grid(),
                        },
                    )
                    &&& final(world).generator().draws() == old(world).generator().draws()
                        + turn_draws(
                        Turn { cell: *old(self), pos: *old(self_pos), next: old(world).next_grid() },
                        old(world).grid(),
                        lot,
                        child_drawn,
                    )
                },
    {
        let ghost grid = world.grid();
        let ghost before = Turn { cell: *self, pos: *self_pos, next: world.next_grid() };
        let ghost drawn_before = world.generator().draws();
        proof {
            use_type_invariant(&self.genome);
            self.genome.lemma_rewound();
        }
        let ghost mut child = Cell { genome: self.divided().genome.rewound(), ..self.divided() };
        let ghost mut child_drawn = chance(false, Seq::empty());

        self.update_gravity(self_pos, world);
        let ghost lot = choose|lot: int|
            {
                &&& 0 <= lot < 2
                &&& *self_pos == #[trigger] fall_target(
                    before.cell.fixed,
                    before.pos,
                    grid,
                    before.next,
                    lot,
                )
                &&& world.generator().draws() == drawn_before + gravity_draws(
                    before.cell.fixed,
                    before.pos,
                    grid,
                    before.next,
                    lot,
                )
            };
        let ghost fallen = Turn { pos: *self_pos, ..before };
        let ghost drawn_fallen = world.generator().draws();

        let gene = *self.genome.get();
        match gene {
            Gene::MovePosition(direction) => {
                let target = *self_pos + direction;
                if world.is_open_pos(target) {
                    *self_pos = target;
                }
            },
            Gene::MoveEnergy(direction) => {
                let target = *self_pos + direction;
                if world.is_valid_pos(target) {
                    match world.get_mut(target) {
                        Some(cell) => {
                            self.share_energy(cell);
                        },
                        None => {},
                    }
                }
            },
            Gene::Reproduction(direction) => {
                let target = *self_pos + direction;
                if world.is_valid_pos(target) {
                    let new_cell = self.reproduction(world.rng());
                    match new_cell {
                        Some(cell) => {
                            proof {
                                child = cell;
                                child_drawn = choose|drawn: Seq<Draw>|
                                    {
                                        &&& #[trigger] cell.is_newborn_by(*self, drawn)
                                        &&& world.generator().draws() == drawn_fallen + drawn
                                    };
                            }
                            world.add(target, cell);
                        },
                        None => {},
                    }
                }
            },
            Gene::Synthesis(type_synthesis) => self.synthesize(type_synthesis),
            Gene::Attack(direction) => {
                let target = *self_pos + direction;
                match world.get_mut(target) {
                    Some(cell) => {
                        self.strike(cell);
                    },
                    None => {},
                }
            },
            Gene::Stop => {
                self.genome.reset();
            },
            Gene::Nothing => {},
        }
        assert(Turn { cell: *self, pos: *self_pos, next: world.next_grid() } =~= acted(
            fallen,
            grid,
            gene,
            child,
        ));
        assert(world.generator().draws() =~= drawn_before + turn_draws(
            before,
            grid,
            lot,
            child_drawn,
        ));
        self.genome.next();
        self.metabolize(HEIGHT - self_pos.y());
        assert(turn_recorded(
            before,
            grid,
            lot,
            child,
            child_drawn,
            Turn { cell: *self, pos: *self_pos, next: world.next_grid() },
        ));
    }

    /// Runs a synthesis of the given kind.
    pub fn synthesize(&mut self, type_synthesis: TypeSynthesis)
        ensures
            *final(self) == old(self).synthesized(type_synthesis),
    {
        match type_synthesis {
            TypeSynthesis::Energy => {
                self.energy = plus(self.energy, yield_at(self.energy));
            },
            TypeSynthesis::Toxin => {
                self.energy = minus(self.energy, UNIT);
                self.toxin = plus(self.toxin, UNIT);
            },
            TypeSynthesis::Health => {
                self.energy = minus(self.energy, UNIT);
                self.health = plus(self.health, UNIT);
            },
        }
    }

    /// Levels energy with `kin`.
    pub fn share_energy(&mut self, kin: &mut Cell)
        ensures
            (*final(self), *final(kin)) == old(self).after_sharing(*old(kin)),
    {
        if self.family == kin.family {
            if self.energy > kin.energy {
                let k: i128 = (self.energy as i128 - kin.energy as i128) / 2;
                self.energy = (self.energy as i128 - k) as i64;
                kin.energy = (kin.energy as i128 + k) as i64;
            } else {
                let k: i128 = (kin.energy as i128 - self.energy as i128) / 2;
                self.energy = (self.energy as i128 + k) as i64;
                kin.energy = (kin.energy as i128 - k) as i64;
            }
        }
    }

    /// Attacks `rival`.
    pub fn strike(&mut self, rival: &mut Cell)
        ensures
            (*final(self), *final(rival)) == old(self).after_strike(*old(rival)),
            old(self).family == old(rival).family ==> *final(self) == *old(self) && *final(rival)
                == *old(rival),
    {
        if self.family != rival.family {
            let health: i128 = self.health as i128;
            assert(-0x2_0000_0000_0000_0000 <= AGGRESSION * health <= 0x2_0000_0000_0000_0000)
                by (nonlinear_arith)
                requires
                    AGGRESSION == 3,
                    -0x8000_0000_0000_0000 <= health < 0x8000_0000_0000_0000,
            ;
            let k: i64 = saturated((AGGRESSION as i128) * health);
            self.energy = plus(self.energy, k);
            rival.energy = minus(rival.energy, k);
            rival.health = minus(rival.health, k);
        }
    }

    /// Charges one tick of living at the given depth and ages the cell.
    pub fn metabolize(&mut self, depth: i32)
        ensures
            *final(self) == old(self).metabolized(depth as int),
    {
        self.energy = after_upkeep(self.energy, self.max_lifetime, self.health, depth);
        if self.lifetime < u32::MAX {
            self.lifetime = self.lifetime + 1;
        }
    }
}

/// Levelling is idempotent: once two cells have levelled their energy, a
/// second levelling changes nothing. It also keeps the sum of the two
/// energies, and it does not matter which of the two starts it.
pub proof fn lemma_sharing_is_idempotent(cell: Cell, kin: Cell)
    ensures
        ({
            let (mine, theirs) = cell.after_sharing(kin);
            &&& mine.after_sharing(theirs) == (mine, theirs)
            &&& mine.energy + theirs.energy == cell.energy + kin.energy
            &&& kin.after_sharing(cell) == (theirs, mine)
        }),
{
}

/// Kin are immune: an attack between two cells of one family changes
/// neither of them.
pub proof fn lemma_kin_are_immune(cell: Cell, kin: Cell)
    requires
        cell.family == kin.family,
    ensures
        cell.after_strike(kin) == (cell, kin),
{
}

impl Mutable for Cell {
    /// Flips the mutation coin once. If it hits, the genome mutates and the
    /// `fixed` flag, the colour, the family and `max_lifetime` are drawn
    /// anew, in this order; if not, nothing changes and nothing more is
    /// drawn.
    fn mutate(&mut self, rng: &mut Prng) -> (mutated: bool)
        ensures
            !mutated ==> *final(self) == *old(self),
            mutated ==> final(self).is_mutant_of(*old(self)),
            final(rng).seeded_by() == old(rng).seeded_by(),
            !mutated ==> final(rng).draws() == old(rng).draws() + chance(false, Seq::empty()),
            mutated ==> exists|rerolled: Seq<bool>|
                {
                    &&& #[trigger] mutation_of(
                        old(self).genome.codons(),
                        rerolled,
                        final(self).genome.codons(),
                    )
                    &&& final(rng).draws() == old(rng).draws() + chance(
                        true,
                        program_chances(
                            rerolled,
                            final(self).genome.codons(),
                            COUNT_GENES as nat,
                        ) + final(self).redrawn_by(),
                    )
                },
    {
        let ghost start = rng.draws();
        if is_mutated(rng) {
            let ghost codons = self.genome.codons();
            let ghost flipped = rng.draws();
            self.genome.mutate(rng);
            let ghost rerolled = choose|rerolled: Seq<bool>|
                {
                    &&& #[trigger] mutation_of(codons, rerolled, self.genome.codons())
                    &&& rng.draws() == flipped + program_chances(
                        rerolled,
                        self.genome.codons(),
                        COUNT_GENES as nat,
                    )
                };
            self.fixed = rng.ratio(FIXED_CHANCE, FIXED_CHANCE_OUT_OF);
            self.color = Self::rand_color(rng);
            self.family = rng.range(0, 255) as u8;
            self.max_lifetime = rng.range(0, 1000);
            assert(rng.draws() =~= start + chance(
                true,
                program_chances(rerolled, self.genome.codons(), COUNT_GENES as nat)
                    + self.redrawn_by(),
            ));
            return true;
        }
        assert(rng.draws() =~= start + chance(false, Seq::empty()));
        false
    }
}

/// Marks what a cell's signal is meant for.
#[derive(Debug, Clone, Copy)]
pub enum MarkerCell {
    Global,
    Private(Family),
}

} // verus!
