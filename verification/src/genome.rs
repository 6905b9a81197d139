//! The genome: a fixed-length cyclic program of genes and its program
//! counter.

use crate::consts::COUNT_GENES;
use crate::etc::{chance, is_mutated};
use crate::math::Direction;
use crate::random::{Draw, Prng};
use crate::traits::{GetRandomVariant, Mutable};
use vstd::prelude::*;

verus! {

/// What a `Synthesis` gene produces.
#[derive(Debug, Clone, Copy, PartialEq, Eq, Structural)]
pub enum TypeSynthesis {
    Energy,
    Toxin,
    Health,
}

impl TypeSynthesis {
    /// Number of kinds.
    pub const VARIANT_COUNT: usize = 3;

    /// The number of this kind: the inverse of `spec_from_index`.
    pub open spec fn number(self) -> int {
        match self {
            TypeSynthesis::Energy => 0,
            TypeSynthesis::Toxin => 1,
            TypeSynthesis::Health => 2,
        }
    }

    /// The numbers below `VARIANT_COUNT` and the kinds correspond one to one.
    pub proof fn lemma_numbering(kind: TypeSynthesis, idx: int)
        ensures
            0 <= kind.number() < TypeSynthesis::VARIANT_COUNT,
            TypeSynthesis::spec_from_index(kind.number()) == kind,
            0 <= idx < TypeSynthesis::VARIANT_COUNT ==> TypeSynthesis::spec_from_index(
                idx,
            ).number() == idx,
    {
    }

    /// The kind with the given number: `Energy` (0), `Toxin` (1), `Health` (2).
    pub open spec fn spec_from_index(idx: int) -> TypeSynthesis {
        if idx == 0 {
            TypeSynthesis::Energy
        } else if idx == 1 {
            TypeSynthesis::Toxin
        } else {
            TypeSynthesis::Health
        }
    }

    /// The record of the call that draws this kind: its number came back
    /// when a number below `VARIANT_COUNT` was asked for.
    pub open spec fn drawn_by(self) -> Seq<Draw> {
        seq![
            Draw::Range {
                low: 0,
                high: TypeSynthesis::VARIANT_COUNT as u32,
                sample: self.number() as u32,
            },
        ]
    }

    /// The kind with the given number.
    pub fn from_index(idx: usize) -> (kind: TypeSynthesis)
        requires
            idx < TypeSynthesis::VARIANT_COUNT,
        ensures
            kind == TypeSynthesis::spec_from_index(idx as int),
    {
        match idx {
            0 => TypeSynthesis::Energy,
            1 => TypeSynthesis::Toxin,
            _ => TypeSynthesis::Health,
        }
    }
}

impl GetRandomVariant for TypeSynthesis {
    const VARIANT_COUNT: usize = Self::VARIANT_COUNT;

    /// Draws one number below `VARIANT_COUNT`; the result is the kind with
    /// that number.
    fn get_rand_variant(self, rng: &mut Prng) -> (fresh: TypeSynthesis)
        ensures
            final(rng).seeded_by() == old(rng).seeded_by(),
            final(rng).draws() == old(rng).draws() + fresh.drawn_by(),
    {
        let idx = Self::gen_idx_variant(rng);
        proof {
            TypeSynthesis::lemma_numbering(TypeSynthesis::Energy, idx as int);
        }
        TypeSynthesis::from_index(idx)
    }
}

impl Mutable for TypeSynthesis {
    /// Flips the mutation coin. After a hit the kind is drawn anew;
    /// otherwise it stays and nothing more is drawn.
    fn mutate(&mut self, rng: &mut Prng) -> (rerolled: bool)
        ensures
            !rerolled ==> *final(self) == *old(self),
            final(rng).seeded_by() == old(rng).seeded_by(),
            final(rng).draws() == old(rng).draws() + chance(rerolled, final(self).drawn_by()),
    {
        if is_mutated(rng) {
            *self = self.get_rand_variant(rng);
            return true;
        }
        false
    }
}

/// One instruction of a genome.
#[derive(Debug, Clone, Copy, PartialEq, Eq, Structural)]
pub enum Gene {
    /// Step to the neighbouring position in the given direction.
    MovePosition(Direction),
    /// Level energy with the kin in the given direction.
    MoveEnergy(Direction),
    /// Place a child in the given direction.
    Reproduction(Direction),
    /// Produce a resource.
    Synthesis(TypeSynthesis),
    /// Drain the rival in the given direction.
    Attack(Direction),
    /// Restart the program.
    Stop,
    /// Do nothing.
    Nothing,
}

impl Gene {
    /// Number of variants.
    pub const VARIANT_COUNT: usize = 7;

    /// The number of this gene's variant.
    pub open spec fn variant_number(self) -> int {
        match self {
            Gene::MovePosition(_) => 0,
            Gene::MoveEnergy(_) => 1,
            Gene::Reproduction(_) => 2,
            Gene::Synthesis(_) => 3,
            Gene::Attack(_) => 4,
            Gene::Stop => 5,
            Gene::Nothing => 6,
        }
    }

    /// The number of this gene's payload, 0 where it carries none.
    pub open spec fn payload_number(self) -> int {
        match self {
            Gene::MovePosition(dir) => dir.number(),
            Gene::MoveEnergy(dir) => dir.number(),
            Gene::Reproduction(dir) => dir.number(),
            Gene::Synthesis(kind) => kind.number(),
            Gene::Attack(dir) => dir.number(),
            Gene::Stop => 0,
            Gene::Nothing => 0,
        }
    }

    /// Whether `variant` and `payload` are the numbers of a gene: a variant
    /// below `VARIANT_COUNT`, and a payload among those that the variant can
    /// carry, or 0 where it carries none.
    pub open spec fn are_numbers(variant: int, payload: int) -> bool {
        &&& 0 <= variant < Gene::VARIANT_COUNT
        &&& if Gene::spec_payload_count(variant) > 0 {
            0 <= payload < Gene::spec_payload_count(variant)
        } else {
            payload == 0
        }
    }

    /// The pairs of numbers and the genes correspond one to one, so that a
    /// uniformly drawn variant with a uniformly drawn payload gives every
    /// gene of that variant the same chance.
    pub proof fn lemma_numbering(gene: Gene, variant: int, payload: int)
        ensures
            Gene::are_numbers(gene.variant_number(), gene.payload_number()),
            Gene::spec_from_indices(gene.variant_number(), gene.payload_number()) == gene,
            Gene::are_numbers(variant, payload) ==> {
                &&& Gene::spec_from_indices(variant, payload).variant_number() == variant
                &&& Gene::spec_from_indices(variant, payload).payload_number() == payload
            },
    {
        if Gene::are_numbers(variant, payload) {
            Direction::lemma_numbering(Direction::Down, payload);
            TypeSynthesis::lemma_numbering(TypeSynthesis::Energy, payload);
        }
    }

    /// How many payloads the variant with the given number can carry: 8
    /// directions, 3 kinds of synthesis, or none.
    pub open spec fn spec_payload_count(variant: int) -> int {
        if variant == 3 {
            3
        } else if 0 <= variant <= 4 {
            8
        } else {
            0
        }
    }

    /// The gene whose variant has the given number, counting from
    /// `MovePosition` (0) to `Nothing` (6), and whose payload, where the variant
    /// carries one, has the number `payload`.
    pub open spec fn spec_from_indices(variant: int, payload: int) -> Gene {
        if variant == 0 {
            Gene::MovePosition(Direction::spec_from_index(payload))
        } else if variant == 1 {
            Gene::MoveEnergy(Direction::spec_from_index(payload))
        } else if variant == 2 {
            Gene::Reproduction(Direction::spec_from_index(payload))
        } else if variant == 3 {
            Gene::Synthesis(TypeSynthesis::spec_from_index(payload))
        } else if variant == 4 {
            Gene::Attack(Direction::spec_from_index(payload))
        } else if variant == 5 {
            Gene::Stop
        } else {
            Gene::Nothing
        }
    }

    /// The record of the calls that draw this gene: the number of its
    /// variant came back when a number below `VARIANT_COUNT` was asked for
    /// and, where the variant carries a payload, the number of its payload
    /// came back when one of that variant's payloads was asked for.
    pub open spec fn drawn_by(self) -> Seq<Draw> {
        let variant = Draw::Range {
            low: 0,
            high: Gene::VARIANT_COUNT as u32,
            sample: self.variant_number() as u32,
        };
        if Gene::spec_payload_count(self.variant_number()) > 0 {
            seq![
                variant,
                Draw::Range {
                    low: 0,
                    high: Gene::spec_payload_count(self.variant_number()) as u32,
                    sample: self.payload_number() as u32,
                },
            ]
        } else {
            seq![variant]
        }
    }

    /// How many payloads the variant with the given number can carry.
    pub fn payload_count(variant: usize) -> (count: usize)
        ensures
            count == Gene::spec_payload_count(variant as int),
    {
        if variant == 3 {
            3
        } else if variant <= 4 {
            8
        } else {
            0
        }
    }

    /// The gene with the given variant and payload numbers.
    pub fn from_indices(variant: usize, payload: usize) -> (gene: Gene)
        requires
            variant < Gene::VARIANT_COUNT,
            Gene::spec_payload_count(variant as int) > 0 ==> payload < Gene::spec_payload_count(
                variant as int,
            ),
        ensures
            gene == Gene::spec_from_indices(variant as int, payload as int),
    {
        match variant {
            0 => Gene::MovePosition(Direction::from_index(payload)),
            1 => Gene::MoveEnergy(Direction::from_index(payload)),
            2 => Gene::Reproduction(Direction::from_index(payload)),
            3 => Gene::Synthesis(TypeSynthesis::from_index(payload)),
            4 => Gene::Attack(Direction::from_index(payload)),
            5 => Gene::Stop,
            _ => Gene::Nothing,
        }
    }
}

impl GetRandomVariant for Gene {
    const VARIANT_COUNT: usize = Self::VARIANT_COUNT;

    /// Draws the number of a variant and, where that variant carries a
    /// payload, the number of one of its payloads; the result is the gene
    /// with these numbers.
    fn get_rand_variant(self, rng: &mut Prng) -> (fresh: Gene)
        ensures
            final(rng).seeded_by() == old(rng).seeded_by(),
            final(rng).draws() == old(rng).draws() + fresh.drawn_by(),
    {
        let variant = Self::gen_idx_variant(rng);
        let count = Gene::payload_count(variant);
        let payload: usize = if count > 0 {
            rng.range(0, count as u32) as usize
        } else {
            0
        };
        proof {
            Gene::lemma_numbering(Gene::Nothing, variant as int, payload as int);
        }
        Gene::from_indices(variant, payload)
    }
}

impl Mutable for Gene {
    /// Flips the mutation coin. After a hit the gene is drawn anew;
    /// otherwise it stays and nothing more is drawn.
    fn mutate(&mut self, rng: &mut Prng) -> (rerolled: bool)
        ensures
            !rerolled ==> *final(self) == *old(self),
            final(rng).seeded_by() == old(rng).seeded_by(),
            final(rng).draws() == old(rng).draws() + chance(rerolled, final(self).drawn_by()),
    {
        if is_mutated(rng) {
            *self = self.get_rand_variant(rng);
            return true;
        }
        false
    }
}

impl Default for Gene {
    fn default() -> (gene: Gene)
        ensures
            gene == Gene::Nothing,
    {
        Gene::Nothing
    }
}

/// The codon that stands at index `idx` of a newborn's program: twelve genes
/// that alternate energy synthesis with reproduction in the four orthogonal
/// directions and end in `Stop`, then `Nothing` up to the end.
pub open spec fn default_codon(idx: int) -> Gene {
    if idx == 2 {
        Gene::Reproduction(Direction::Down)
    } else if idx == 4 {
        Gene::MoveEnergy(Direction::Right)
    } else if idx == 6 {
        Gene::Reproduction(Direction::Right)
    } else if idx == 8 {
        Gene::Reproduction(Direction::Left)
    } else if idx == 10 {
        Gene::Reproduction(Direction::Top)
    } else if idx == 11 {
        Gene::Stop
    } else if 0 <= idx < 11 {
        Gene::Synthesis(TypeSynthesis::Energy)
    } else {
        Gene::Nothing
    }
}

/// Where the program counter stands after one advance from `step`: one
/// further, wrapping at the end of the program, and back at 0 if the codon
/// found there is `Stop`.
pub open spec fn next_step(codons: Seq<Gene>, step: int) -> int {
    let bumped = if step + 1 >= codons.len() {
        0
    } else {
        step + 1
    };
    if codons[bumped] == Gene::Stop {
        0
    } else {
        bumped
    }
}

/// Where the program counter stands after `count` advances from `step`.
pub open spec fn step_after(codons: Seq<Gene>, step: int, count: nat) -> int
    decreases count,
{
    if count == 0 {
        step
    } else {
        next_step(codons, step_after(codons, step, (count - 1) as nat))
    }
}

/// The record of giving mutation its chance on the first `count` codons of a
/// program, one after the other: `rerolled` tells for each codon whether the
/// coin hit, and `after` is the program that results.
pub open spec fn program_chances(rerolled: Seq<bool>, after: Seq<Gene>, count: nat) -> Seq<Draw>
    decreases count,
{
    if count == 0 {
        Seq::empty()
    } else {
        program_chances(rerolled, after, (count - 1) as nat) + chance(
            rerolled[count - 1],
            after[count - 1].drawn_by(),
        )
    }
}

/// Whether `after` can come of `before` when the coin hits where `rerolled`
/// says: a codon on which it did not hit is the same as before.
pub open spec fn mutation_of(before: Seq<Gene>, rerolled: Seq<bool>, after: Seq<Gene>) -> bool {
    &&& rerolled.len() == before.len()
    &&& after.len() == before.len()
    &&& forall|i: int| 0 <= i < before.len() && !rerolled[i] ==> after[i] == before[i]
}

/// The record of the first `count` chances looks at the first `count` codons
/// only.
proof fn lemma_program_chances_looks_at_prefix(
    rerolled: Seq<bool>,
    after: Seq<Gene>,
    other_rerolled: Seq<bool>,
    other_after: Seq<Gene>,
    count: nat,
)
    requires
        forall|i: int| 0 <= i < count ==> rerolled[i] == other_rerolled[i],
        forall|i: int| 0 <= i < count ==> after[i] == other_after[i],
    ensures
        program_chances(rerolled, after, count) == program_chances(
            other_rerolled,
            other_after,
            count,
        ),
    decreases count,
{
    if count > 0 {
        lemma_program_chances_looks_at_prefix(
            rerolled,
            after,
            other_rerolled,
            other_after,
            (count - 1) as nat,
        );
    }
}

/// A program of `COUNT_GENES` codons and the counter that walks it.
#[derive(Debug, Clone, Copy)]
pub struct Genome {
    step: usize,
    step_for_add: usize,
    inner: [Gene; COUNT_GENES],
}

impl Genome {
    /// The counter indexes a codon, and no more codons were appended than
    /// the program holds.
    #[verifier::type_invariant]
    pub closed spec fn wf(self) -> bool {
        &&& self.step < COUNT_GENES
        &&& self.step_for_add <= COUNT_GENES
    }

    /// The program, codon by codon.
    pub closed spec fn codons(self) -> Seq<Gene> {
        self.inner@
    }

    /// The program counter.
    pub closed spec fn spec_step(&self) -> usize {
        self.step
    }

    /// How many codons `add_gene` has appended so far.
    pub closed spec fn filled(self) -> int {
        self.step_for_add as int
    }

    /// This genome with the program counter back at the start.
    pub closed spec fn rewound(self) -> Genome {
        Genome { step: 0, ..self }
    }

    /// This genome after one advance of the program counter.
    pub closed spec fn advanced(self) -> Genome {
        Genome { step: next_step(self.inner@, self.step as int) as usize, ..self }
    }

    /// Rewinding touches the program counter only.
    pub proof fn lemma_rewound(self)
        requires
            self.wf(),
        ensures
            self.rewound().wf(),
            self.rewound().spec_step() == 0,
            self.rewound().codons() == self.codons(),
            self.rewound().filled() == self.filled(),
            self.spec_step() == 0 ==> self.rewound() == self,
    {
    }

    /// Advancing moves the program counter as `next_step` says and touches
    /// nothing else.
    pub proof fn lemma_advanced(self)
        requires
            self.wf(),
        ensures
            self.advanced().wf(),
            self.advanced().spec_step() == next_step(self.codons(), self.spec_step() as int),
            self.advanced().codons() == self.codons(),
            self.advanced().filled() == self.filled(),
    {
    }

    /// This genome after `count` advances of the program counter.
    pub open spec fn advanced_by(self, count: nat) -> Genome
        decreases count,
    {
        if count == 0 {
            self
        } else {
            self.advanced_by((count - 1) as nat).advanced()
        }
    }

    /// Advances keep a genome well-formed and its program untouched, and walk
    /// the program counter as `step_after` says.
    pub proof fn lemma_advanced_by(self, count: nat)
        requires
            self.wf(),
        ensures
            self.advanced_by(count).wf(),
            self.advanced_by(count).codons() == self.codons(),
            self.advanced_by(count).filled() == self.filled(),
            self.advanced_by(count).spec_step() == step_after(
                self.codons(),
                self.spec_step() as int,
                count,
            ),
        decreases count,
    {
        if count > 0 {
            self.lemma_advanced_by((count - 1) as nat);
            self.advanced_by((count - 1) as nat).lemma_advanced();
        }
    }

    /// In a program without `Stop`, `count` advances from the start lead to
    /// codon `count`, as long as that is a codon of the program.
    pub proof fn lemma_walk_without_stop(codons: Seq<Gene>, count: nat)
        requires
            count < codons.len(),
            forall|i: int| 0 <= i < codons.len() ==> codons[i] != Gene::Stop,
        ensures
            step_after(codons, 0, count) == count,
        decreases count,
    {
        if count > 0 {
            Self::lemma_walk_without_stop(codons, (count - 1) as nat);
        }
    }

    /// The genome cycle: a genome that stands at the start of a program
    /// without `Stop` is back where it was after exactly `COUNT_GENES`
    /// advances.
    pub proof fn lemma_cycle_without_stop(self)
        requires
            self.wf(),
            self.spec_step() == 0,
            forall|i: int| 0 <= i < COUNT_GENES ==> self.codons()[i] != Gene::Stop,
        ensures
            step_after(self.codons(), 0, COUNT_GENES as nat) == 0,
            self.advanced_by(COUNT_GENES as nat) == self,
    {
        let codons = self.codons();
        Self::lemma_walk_without_stop(codons, (COUNT_GENES - 1) as nat);
        assert(step_after(codons, 0, COUNT_GENES as nat) == next_step(
            codons,
            step_after(codons, 0, (COUNT_GENES - 1) as nat),
        ));
        self.lemma_advanced_by(COUNT_GENES as nat);
        self.advanced_by(COUNT_GENES as nat).lemma_extensional(self);
    }

    /// A genome is its program, its counter and its fill mark, nothing more.
    pub proof fn lemma_extensional(self, other: Genome)
        requires
            self.codons() == other.codons(),
            self.spec_step() == other.spec_step(),
            self.filled() == other.filled(),
        ensures
            self == other,
    {
        assert(self.inner =~= other.inner);
    }

    /// Every genome has exactly `COUNT_GENES` codons; a well-formed one has
    /// its counter among them.
    pub proof fn lemma_shape(self)
        ensures
            self.codons().len() == COUNT_GENES,
            self.wf() ==> 0 <= self.spec_step() < COUNT_GENES,
            self.wf() ==> 0 <= self.filled() <= COUNT_GENES,
    {
    }

    /// The genome of a newborn: the default program with the counter at its
    /// start.
    pub fn new() -> (genome: Genome)
        ensures
            genome.wf(),
            genome.spec_step() == 0,
            genome.filled() == 12,
            genome.codons() == Seq::new(COUNT_GENES as nat, |i: int| default_codon(i)),
    {
        let genome = Self { step: 0, step_for_add: 0, inner: [Gene::Nothing;COUNT_GENES] };
        let genome = genome.add_gene(Gene::Synthesis(TypeSynthesis::Energy)).add_gene(
            Gene::Synthesis(TypeSynthesis::Energy),
        ).add_gene(Gene::Reproduction(Direction::Down)).add_gene(
            Gene::Synthesis(TypeSynthesis::Energy),
        ).add_gene(Gene::MoveEnergy(Direction::Right)).add_gene(
            Gene::Synthesis(TypeSynthesis::Energy),
        ).add_gene(Gene::Reproduction(Direction::Right)).add_gene(
            Gene::Synthesis(TypeSynthesis::Energy),
        ).add_gene(Gene::Reproduction(Direction::Left)).add_gene(
            Gene::Synthesis(TypeSynthesis::Energy),
        ).add_gene(Gene::Reproduction(Direction::Top)).add_gene(Gene::Stop);
        assert(genome.codons() =~= Seq::new(COUNT_GENES as nat, |i: int| default_codon(i)));
        genome
    }

    /// A genome that runs the given program from its start.
    pub fn from_genes(genes: [Gene; COUNT_GENES]) -> (genome: Genome)
        ensures
            genome.wf(),
            genome.spec_step() == 0,
            genome.filled() == COUNT_GENES,
            genome.codons() == genes@,
    {
        Self { step: 0, step_for_add: COUNT_GENES, inner: genes }
    }

    /// The program, codon by codon.
    pub fn genes(&self) -> (genes: [Gene; COUNT_GENES])
        ensures
            genes@ == self.codons(),
    {
        self.inner
    }

    /// Appends `gene` behind the codons appended so far.
    pub fn add_gene(self, gene: Gene) -> (genome: Genome)
        requires
            self.filled() < COUNT_GENES,
        ensures
            genome.wf(),
            genome.codons() == self.codons().update(self.filled(), gene),
            genome.filled() == self.filled() + 1,
            genome.spec_step() == self.spec_step(),
    {
        proof {
            use_type_invariant(&self);
        }
        let mut inner = self.inner;
        inner[self.step_for_add] = gene;
        Self { step: self.step, step_for_add: self.step_for_add + 1, inner }
    }

    /// The program counter.
    #[verifier::when_used_as_spec(spec_step)]
    pub fn step(&self) -> (step: usize)
        ensures
            step == self.spec_step(),
            step < COUNT_GENES,
    {
        proof {
            use_type_invariant(self);
        }
        self.step
    }

    /// Puts the program counter back to the start.
    pub fn reset(&mut self)
        ensures
            *final(self) == old(self).rewound(),
            final(self).wf(),
            final(self).spec_step() == 0,
            final(self).codons() == old(self).codons(),
            final(self).filled() == old(self).filled(),
    {
        proof {
            use_type_invariant(&*self);
        }
        self.step = 0;
    }

    /// The codon under the program counter.
    pub fn get(&self) -> (gene: &Gene)
        ensures
            *gene == self.codons()[self.spec_step() as int],
    {
        proof {
            use_type_invariant(self);
        }
        &self.inner[self.step]
    }

    /// Advances the program counter by one codon, wrapping at the end of the
    /// program. A `Stop` found at the new place sends the counter back to 0.
    pub fn next(&mut self)
        ensures
            *final(self) == old(self).advanced(),
            final(self).wf(),
            final(self).spec_step() == next_step(old(self).codons(), old(self).spec_step() as int),
            final(self).codons() == old(self).codons(),
            final(self).filled() == old(self).filled(),
            ({
                let bumped = if old(self).spec_step() + 1 >= COUNT_GENES {
                    0
                } else {
                    old(self).spec_step() + 1
                };
                &&& old(self).codons()[bumped] == Gene::Stop ==> final(self).spec_step() == 0
                &&& old(self).codons()[bumped] != Gene::Stop ==> final(self).spec_step() == bumped
            }),
    {
        proof {
            use_type_invariant(&*self);
        }
        let bumped: usize = if self.step + 1 >= COUNT_GENES {
            0
        } else {
            self.step + 1
        };
        let landed: usize = match self.inner[bumped] {
            Gene::Stop => 0,
            _ => bumped,
        };
        self.step = landed;
    }
}

impl Mutable for Genome {
    /// Gives mutation its chance on every codon, from the first to the last,
    /// and rewinds the program counter. Tells whether the program is another
    /// than before.
    fn mutate(&mut self, rng: &mut Prng) -> (altered: bool)
        ensures
            final(self).wf(),
            final(self).spec_step() == 0,
            final(self).filled() == old(self).filled(),
            altered == (final(self).codons() != old(self).codons()),
            final(rng).seeded_by() == old(rng).seeded_by(),
            exists|rerolled: Seq<bool>|
                {
                    &&& #[trigger] mutation_of(old(self).codons(), rerolled, final(self).codons())
                    &&& final(rng).draws() == old(rng).draws() + program_chances(
                        rerolled,
                        final(self).codons(),
                        COUNT_GENES as nat,
                    )
                },
    {
        proof {
            use_type_invariant(&*self);
        }
        let ghost mut marks: Seq<bool> = Seq::empty();
        let mut altered = false;
        let mut i: usize = 0;
        assert(rng.draws() =~= old(rng).draws() + program_chances(marks, self.inner@, 0));
        while i < COUNT_GENES
            invariant
                i <= COUNT_GENES,
                self.wf(),
                self.step == old(self).step,
                self.step_for_add == old(self).step_for_add,
                forall|j: int| i <= j < COUNT_GENES ==> self.inner@[j] == old(self).inner@[j],
                altered == exists|j: int| 0 <= j < i && self.inner@[j] != old(self).inner@[j],
                rng.seeded_by() == old(rng).seeded_by(),
                marks.len() == i,
                forall|j: int| 0 <= j < i && !marks[j] ==> self.inner@[j] == old(self).inner@[j],
                rng.draws() == old(rng).draws() + program_chances(marks, self.inner@, i as nat),
            decreases COUNT_GENES - i,
        {
            let before = self.inner[i];
            let mut gene = before;
            let ghost drawn = rng.draws();
            let rerolled = gene.mutate(rng);
            let ghost earlier = self.inner@;
            let ghost earlier_marks = marks;
            self.inner[i] = gene;
            if gene != before {
                altered = true;
            }
            proof {
                if altered {
                    if gene != before {
                        assert(self.inner@[i as int] != old(self).inner@[i as int]);
                    } else {
                        let j = choose|j: int| 0 <= j < i && earlier[j] != old(self).inner@[j];
                        assert(self.inner@[j] != old(self).inner@[j]);
                    }
                }
                marks = marks.push(rerolled);
                lemma_program_chances_looks_at_prefix(
                    earlier_marks,
                    earlier,
                    marks,
                    self.inner@,
                    i as nat,
                );
                assert(rng.draws() =~= old(rng).draws() + program_chances(
                    marks,
                    self.inner@,
                    (i + 1) as nat,
                ));
            }
            i += 1;
        }
        self.step = 0;
        proof {
            if altered {
                let j = choose|j: int| 0 <= j < COUNT_GENES && self.inner@[j] != old(self).inner@[j];
                assert(self.codons()[j] != old(self).codons()[j]);
            } else {
                assert(self.codons() =~= old(self).codons());
            }
            assert(mutation_of(old(self).codons(), marks, self.codons()));
        }
        altered
    }
}

} // verus!
