use evocell::consts::COUNT_GENES;
use evocell::genome::{Gene, Genome, TypeSynthesis};
use evocell::math::Direction;
use evocell::random::Prng;
use evocell::traits::{GetRandomVariant, Mutable};

fn program_of(gene: Gene) -> [Gene; COUNT_GENES] {
    [gene; COUNT_GENES]
}

#[test]
fn genome_has_sixteen_codons() {
    assert_eq!(COUNT_GENES, 16);
    assert_eq!(Genome::new().genes().len(), 16);
}

#[test]
fn newborn_program_is_the_default_one() {
    let genome = Genome::new();
    let energy = Gene::Synthesis(TypeSynthesis::Energy);
    let expected = [
        energy,
        energy,
        Gene::Reproduction(Direction::Down),
        energy,
        Gene::MoveEnergy(Direction::Right),
        energy,
        Gene::Reproduction(Direction::Right),
        energy,
        Gene::Reproduction(Direction::Left),
        energy,
        Gene::Reproduction(Direction::Top),
        Gene::Stop,
        Gene::Nothing,
        Gene::Nothing,
        Gene::Nothing,
        Gene::Nothing,
    ];
    assert_eq!(genome.genes(), expected);
    assert_eq!(genome.step(), 0);
    assert_eq!(*genome.get(), energy);
}

#[test]
fn get_does_not_advance() {
    let genome = Genome::new();
    let first = *genome.get();
    let second = *genome.get();
    assert_eq!(first, second);
    assert_eq!(genome.step(), 0);
}

#[test]
fn genome_cycle_returns_to_start_without_stop() {
    let mut genome = Genome::from_genes(program_of(Gene::Nothing));
    assert_eq!(genome.step(), 0);
    for expected in 1..COUNT_GENES {
        genome.next();
        assert_eq!(genome.step(), expected);
    }
    genome.next();
    assert_eq!(genome.step(), 0);
}

#[test]
fn genome_cycle_holds_for_every_gene_but_stop() {
    let genes = [
        Gene::MovePosition(Direction::Left),
        Gene::MoveEnergy(Direction::Top),
        Gene::Reproduction(Direction::Down),
        Gene::Synthesis(TypeSynthesis::Toxin),
        Gene::Attack(Direction::RightDown),
        Gene::Nothing,
    ];
    for gene in genes {
        let mut genome = Genome::from_genes(program_of(gene));
        for _ in 0..COUNT_GENES {
            genome.next();
        }
        assert_eq!(genome.step(), 0);
        assert_eq!(genome.genes(), program_of(gene));
    }
}

#[test]
fn stop_at_the_next_codon_sends_the_counter_to_zero() {
    let mut program = program_of(Gene::Nothing);
    program[3] = Gene::Stop;
    let mut genome = Genome::from_genes(program);
    genome.next();
    assert_eq!(genome.step(), 1);
    genome.next();
    assert_eq!(genome.step(), 2);
    genome.next();
    assert_eq!(genome.step(), 0);
    assert_eq!(*genome.get(), Gene::Nothing);
}

#[test]
fn stop_at_the_first_codon_keeps_the_counter_at_zero_on_wrap() {
    let mut program = program_of(Gene::Nothing);
    program[0] = Gene::Stop;
    let mut genome = Genome::from_genes(program);
    for expected in 1..COUNT_GENES {
        genome.next();
        assert_eq!(genome.step(), expected);
    }
    genome.next();
    assert_eq!(genome.step(), 0);
}

#[test]
fn stop_right_behind_the_start_pins_the_counter() {
    let mut program = program_of(Gene::Nothing);
    program[1] = Gene::Stop;
    let mut genome = Genome::from_genes(program);
    for _ in 0..5 {
        genome.next();
        assert_eq!(genome.step(), 0);
    }
}

#[test]
fn default_program_loops_over_its_first_eleven_codons() {
    let mut genome = Genome::new();
    for expected in 1..11 {
        genome.next();
        assert_eq!(genome.step(), expected);
    }
    assert_eq!(*genome.get(), Gene::Reproduction(Direction::Top));
    genome.next();
    assert_eq!(genome.step(), 0);
}

#[test]
fn reset_rewinds_the_counter_only() {
    let mut genome = Genome::new();
    genome.next();
    genome.next();
    assert_eq!(genome.step(), 2);
    let before = genome.genes();
    genome.reset();
    assert_eq!(genome.step(), 0);
    assert_eq!(genome.genes(), before);
}

#[test]
fn add_gene_appends_behind_the_default_program() {
    let genome = Genome::new().add_gene(Gene::Attack(Direction::Left));
    let genes = genome.genes();
    assert_eq!(genes[11], Gene::Stop);
    assert_eq!(genes[12], Gene::Attack(Direction::Left));
    assert_eq!(genes[13], Gene::Nothing);
    assert_eq!(genome.step(), 0);
    let genome = genome.add_gene(Gene::Stop).add_gene(Gene::Stop).add_gene(Gene::Synthesis(TypeSynthesis::Health));
    assert_eq!(genome.genes()[15], Gene::Synthesis(TypeSynthesis::Health));
}

#[test]
fn from_genes_starts_at_the_first_codon() {
    let mut program = program_of(Gene::Stop);
    program[0] = Gene::Attack(Direction::Top);
    let genome = Genome::from_genes(program);
    assert_eq!(genome.step(), 0);
    assert_eq!(*genome.get(), Gene::Attack(Direction::Top));
    assert_eq!(genome.genes(), program);
}

#[test]
fn default_gene_does_nothing() {
    assert_eq!(Gene::default(), Gene::Nothing);
}

#[test]
fn type_synthesis_from_index_counts_the_variants() {
    assert_eq!(TypeSynthesis::from_index(0), TypeSynthesis::Energy);
    assert_eq!(TypeSynthesis::from_index(1), TypeSynthesis::Toxin);
    assert_eq!(TypeSynthesis::from_index(2), TypeSynthesis::Health);
    assert_eq!(TypeSynthesis::VARIANT_COUNT, 3);
    assert_eq!(<TypeSynthesis as GetRandomVariant>::VARIANT_COUNT, 3);
}

#[test]
fn gene_payload_counts() {
    assert_eq!(Gene::payload_count(0), 8);
    assert_eq!(Gene::payload_count(1), 8);
    assert_eq!(Gene::payload_count(2), 8);
    assert_eq!(Gene::payload_count(3), 3);
    assert_eq!(Gene::payload_count(4), 8);
    assert_eq!(Gene::payload_count(5), 0);
    assert_eq!(Gene::payload_count(6), 0);
    assert_eq!(Gene::payload_count(7), 0);
    assert_eq!(Gene::VARIANT_COUNT, 7);
    assert_eq!(<Gene as GetRandomVariant>::VARIANT_COUNT, 7);
}

#[test]
fn gene_from_indices_picks_variant_and_payload() {
    assert_eq!(Gene::from_indices(0, 0), Gene::MovePosition(Direction::LeftDown));
    assert_eq!(Gene::from_indices(0, 7), Gene::MovePosition(Direction::Down));
    assert_eq!(Gene::from_indices(1, 5), Gene::MoveEnergy(Direction::Right));
    assert_eq!(Gene::from_indices(2, 3), Gene::Reproduction(Direction::Top));
    assert_eq!(Gene::from_indices(3, 0), Gene::Synthesis(TypeSynthesis::Energy));
    assert_eq!(Gene::from_indices(3, 1), Gene::Synthesis(TypeSynthesis::Toxin));
    assert_eq!(Gene::from_indices(3, 2), Gene::Synthesis(TypeSynthesis::Health));
    assert_eq!(Gene::from_indices(4, 1), Gene::Attack(Direction::Left));
    assert_eq!(Gene::from_indices(5, 0), Gene::Stop);
    assert_eq!(Gene::from_indices(6, 0), Gene::Nothing);
    assert_eq!(Gene::from_indices(5, 99), Gene::Stop);
}

#[test]
fn random_gene_reaches_every_variant() {
    let mut rng = Prng::from_seed(21);
    let mut seen = [false; 7];
    for _ in 0..1000 {
        let at = match Gene::Nothing.get_rand_variant(&mut rng) {
            Gene::MovePosition(_) => 0,
            Gene::MoveEnergy(_) => 1,
            Gene::Reproduction(_) => 2,
            Gene::Synthesis(_) => 3,
            Gene::Attack(_) => 4,
            Gene::Stop => 5,
            Gene::Nothing => 6,
        };
        seen[at] = true;
    }
    assert_eq!(seen, [true; 7]);
}

#[test]
fn random_synthesis_reaches_every_kind() {
    let mut rng = Prng::from_seed(22);
    let mut seen = [false; 3];
    for _ in 0..200 {
        let at = match TypeSynthesis::Energy.get_rand_variant(&mut rng) {
            TypeSynthesis::Energy => 0,
            TypeSynthesis::Toxin => 1,
            TypeSynthesis::Health => 2,
        };
        seen[at] = true;
    }
    assert_eq!(seen, [true; 3]);
}

#[test]
fn gene_that_was_not_rerolled_is_unchanged() {
    let mut rng = Prng::from_seed(23);
    let mut rerolls = 0;
    for _ in 0..500 {
        let mut gene = Gene::Attack(Direction::Top);
        if gene.mutate(&mut rng) {
            rerolls += 1;
        } else {
            assert_eq!(gene, Gene::Attack(Direction::Top));
        }
        let mut kind = TypeSynthesis::Toxin;
        if !kind.mutate(&mut rng) {
            assert_eq!(kind, TypeSynthesis::Toxin);
        }
    }
    assert!(rerolls > 0);
    assert!(rerolls < 500);
}

#[test]
fn genome_mutation_rewinds_and_reports_change() {
    let mut rng = Prng::from_seed(24);
    let mut changed = 0;
    let mut unchanged = 0;
    for _ in 0..300 {
        let mut genome = Genome::new();
        genome.next();
        genome.next();
        let before = genome.genes();
        let altered = genome.mutate(&mut rng);
        assert_eq!(genome.step(), 0);
        assert_eq!(altered, genome.genes() != before);
        if altered {
            changed += 1;
        } else {
            unchanged += 1;
        }
    }
    assert!(changed > 0);
    assert!(unchanged > 0);
}
