use evocell::cell::Cell;
use evocell::consts::{COUNT_GENES, RADIUS_PETRI_DISH, UNIT};
use evocell::genome::{Gene, Genome, TypeSynthesis};
use evocell::math::{get_index, Direction, Position};
use evocell::random::Prng;
use evocell::world::{World, HEIGHT, SLOTS, WIDTH};

fn settler(energy: i64, family: u8, gene: Gene) -> Cell {
    Cell {
        family,
        fixed: true,
        lifetime: 0,
        max_lifetime: 16,
        health: UNIT,
        energy,
        toxin: 0,
        color: (9, 9, 9),
        genome: Genome::from_genes([gene; COUNT_GENES]),
    }
}

fn idler(energy: i64) -> Cell {
    settler(energy, 1, Gene::Nothing)
}

#[test]
fn dish_is_twice_its_radius_wide_and_high() {
    assert_eq!(RADIUS_PETRI_DISH, 180);
    assert_eq!(WIDTH, 360);
    assert_eq!(HEIGHT, 360);
    assert_eq!(SLOTS, 360 * 360);
}

#[test]
fn new_world_is_empty() {
    let world = World::new().unwrap();
    assert_eq!(world.count_cells(), 0);
    assert!(world.iter().is_empty());
    assert!(world.get(Position::new(50, 100)).is_none());
    let mut world = World::with_seed(0);
    assert_eq!(world.count_cells(), 0);
    assert!(world.get_mut(Position::new(50, 100)).is_none());
}

#[test]
fn valid_positions_lie_strictly_inside() {
    let world = World::with_seed(0);
    assert!(world.is_valid_pos(Position::new(1, 1)));
    assert!(world.is_valid_pos(Position::new(359, 359)));
    assert!(world.is_valid_pos(Position::new(50, 100)));
    assert!(!world.is_valid_pos(Position::new(0, 1)));
    assert!(!world.is_valid_pos(Position::new(1, 0)));
    assert!(!world.is_valid_pos(Position::new(0, 0)));
    assert!(!world.is_valid_pos(Position::new(360, 1)));
    assert!(!world.is_valid_pos(Position::new(1, 360)));
    assert!(!world.is_valid_pos(Position::new(-1, 5)));
    assert!(!world.is_valid_pos(Position::new(5, -1)));
    assert!(!world.is_valid_pos(Position::new(i32::MAX, i32::MAX)));
    assert!(!world.is_valid_pos(Position::new(i32::MIN, i32::MIN)));
}

#[test]
fn open_positions_are_valid_and_free() {
    let mut world = World::with_seed(0);
    let pos = Position::new(5, 5);
    assert!(world.is_open_pos(pos));
    assert!(!world.is_open_pos(Position::new(0, 5)));
    assert!(world.add(pos, idler(10 * UNIT)));
    assert!(!world.is_open_pos(pos));
    world.update();
    assert!(!world.is_open_pos(pos));
    assert!(world.is_open_pos(Position::new(6, 5)));
}

#[test]
fn added_cell_is_committed_by_the_next_tick() {
    let mut world = World::with_seed(0);
    let pos = Position::new(50, 100);
    assert!(world.add(pos, idler(10 * UNIT)));
    assert!(world.get(pos).is_none());
    assert_eq!(world.count_cells(), 0);
    assert_eq!(world.get_mut(pos).unwrap().energy, 10 * UNIT);
    world.update();
    assert_eq!(world.get(pos).unwrap().energy, 10 * UNIT);
    assert_eq!(world.get(pos).unwrap().lifetime, 0);
    assert_eq!(world.count_cells(), 1);
    assert!(world.get_mut(pos).is_none());
}

#[test]
fn add_refuses_positions_outside() {
    let mut world = World::with_seed(0);
    for pos in [
        Position::new(0, 0),
        Position::new(0, 10),
        Position::new(10, 0),
        Position::new(360, 10),
        Position::new(10, 360),
        Position::new(-3, 4),
        Position::new(365, 0),
        Position::new(5 - 360, 2),
    ] {
        assert!(!world.add(pos, idler(10 * UNIT)));
    }
    world.update();
    assert_eq!(world.count_cells(), 0);
}

#[test]
fn add_never_replaces_an_occupant() {
    let mut world = World::with_seed(0);
    let pos = Position::new(20, 20);
    assert!(world.add(pos, settler(10 * UNIT, 1, Gene::Nothing)));
    assert!(!world.add(pos, settler(50 * UNIT, 2, Gene::Stop)));
    let kept = *world.get_mut(pos).unwrap();
    assert_eq!(kept.energy, 10 * UNIT);
    assert_eq!(kept.family, 1);
    world.update();
    assert!(!world.add(pos, settler(50 * UNIT, 2, Gene::Stop)));
    assert_eq!(world.get(pos).unwrap().family, 1);
    assert_eq!(world.get(pos).unwrap().energy, 10 * UNIT);
    assert!(world.get_mut(pos).is_none());
    world.update();
    assert_eq!(world.count_cells(), 1);
    assert_eq!(world.get(pos).unwrap().family, 1);
}

#[test]
fn positions_that_share_a_slot_number_do_not_alias() {
    let mut world = World::with_seed(0);
    let inside = Position::new(5, 2);
    let outside = Position::new(365, 1);
    assert_eq!(get_index(inside), get_index(outside));
    assert!(world.add(inside, idler(10 * UNIT)));
    assert!(world.get_mut(outside).is_none());
    assert!(!world.del(outside));
    world.update();
    assert!(world.get(outside).is_none());
    assert!(world.get(inside).is_some());
}

#[test]
fn del_removes_from_either_grid() {
    let mut world = World::with_seed(0);
    let pos = Position::new(20, 20);
    assert!(!world.del(pos));
    assert!(world.add(pos, idler(10 * UNIT)));
    assert!(world.del(pos));
    assert!(!world.del(pos));
    assert!(world.get_mut(pos).is_none());
    assert!(world.add(pos, idler(10 * UNIT)));
    world.update();
    assert!(world.get(pos).is_some());
    assert!(world.del(pos));
    assert!(world.get(pos).is_none());
    assert_eq!(world.count_cells(), 0);
    assert!(!world.del(pos));
    assert!(!world.del(Position::new(0, 0)));
    assert!(!world.del(Position::new(-1, 400)));
}

#[test]
fn get_mut_changes_the_cell_in_place() {
    let mut world = World::with_seed(0);
    let pos = Position::new(20, 20);
    assert!(world.add(pos, idler(10 * UNIT)));
    world.get_mut(pos).unwrap().energy = 3 * UNIT;
    world.get_mut(pos).unwrap().family = 77;
    world.update();
    assert_eq!(world.get(pos).unwrap().energy, 3 * UNIT);
    assert_eq!(world.get(pos).unwrap().family, 77);
}

#[test]
fn iter_lists_cells_row_by_row() {
    let mut world = World::with_seed(0);
    let spots = [Position::new(5, 2), Position::new(3, 2), Position::new(1, 3), Position::new(359, 1)];
    for (i, pos) in spots.iter().enumerate() {
        assert!(world.add(*pos, settler(10 * UNIT, i as u8, Gene::Nothing)));
    }
    assert!(world.iter().is_empty());
    world.update();
    let listed = world.iter();
    let positions: Vec<Position> = listed.iter().map(|entry| entry.0).collect();
    assert_eq!(
        positions,
        vec![Position::new(359, 1), Position::new(3, 2), Position::new(5, 2), Position::new(1, 3)]
    );
    let families: Vec<u8> = listed.iter().map(|entry| entry.1.family).collect();
    assert_eq!(families, vec![3, 1, 0, 2]);
    assert_eq!(world.count_cells(), 4);
}

#[test]
fn tick_gives_every_committed_cell_one_turn() {
    let mut world = World::with_seed(0);
    let spots = [Position::new(10, 350), Position::new(11, 350), Position::new(200, 300)];
    for pos in spots {
        assert!(world.add(pos, idler(10 * UNIT)));
    }
    world.update();
    for pos in spots {
        assert_eq!(world.get(pos).unwrap().lifetime, 0);
        assert_eq!(world.get(pos).unwrap().genome.step(), 0);
    }
    world.update();
    for pos in spots {
        assert_eq!(world.get(pos).unwrap().lifetime, 1);
        assert_eq!(world.get(pos).unwrap().genome.step(), 1);
    }
    assert_eq!(world.get(spots[0]).unwrap().energy, 10 * UNIT - 240_000);
    assert_eq!(world.get(spots[2]).unwrap().energy, 10 * UNIT - 1_440_000);
    world.update();
    for pos in spots {
        assert_eq!(world.get(pos).unwrap().lifetime, 2);
        assert_eq!(world.get(pos).unwrap().genome.step(), 2);
    }
    assert_eq!(world.count_cells(), 3);
}

#[test]
fn starved_cell_is_gone_after_its_turn() {
    let mut world = World::with_seed(0);
    let pos = Position::new(10, 350);
    assert!(world.add(pos, idler(1_500_000)));
    world.update();
    assert_eq!(world.count_cells(), 1);
    world.update();
    assert!(world.get(pos).is_none());
    assert_eq!(world.count_cells(), 0);
    world.update();
    assert_eq!(world.count_cells(), 0);
}

#[test]
fn dead_seed_is_never_committed() {
    let mut world = World::with_seed(0);
    let pos = Position::new(10, 350);
    assert!(world.add(pos, idler(UNIT)));
    assert!(world.get_mut(pos).is_some());
    world.update();
    assert!(world.get(pos).is_none());
    assert!(world.get_mut(pos).is_none());
    assert_eq!(world.count_cells(), 0);
}

#[test]
fn cell_killed_by_an_attack_is_absent_at_the_next_tick() {
    let mut world = World::with_seed(0);
    let attacker_at = Position::new(10, 350);
    let victim_at = Position::new(11, 350);
    assert!(world.add(attacker_at, settler(10 * UNIT, 1, Gene::Attack(Direction::Right))));
    world.update();
    let mut victim = settler(10 * UNIT, 2, Gene::Nothing);
    victim.health = 3 * UNIT;
    assert!(world.add(victim_at, victim));
    world.update();
    assert!(world.get(victim_at).is_none());
    assert_eq!(world.count_cells(), 1);
    assert_eq!(world.get(attacker_at).unwrap().energy, 13 * UNIT - 240_000);
    assert!(world.add(victim_at, victim));
}

#[test]
fn attack_in_a_tick_spares_kin() {
    let mut world = World::with_seed(0);
    let attacker_at = Position::new(10, 350);
    let kin_at = Position::new(11, 350);
    assert!(world.add(attacker_at, settler(10 * UNIT, 1, Gene::Attack(Direction::Right))));
    world.update();
    assert!(world.add(kin_at, settler(10 * UNIT, 1, Gene::Nothing)));
    world.update();
    assert_eq!(world.get(kin_at).unwrap().energy, 10 * UNIT);
    assert_eq!(world.get(kin_at).unwrap().health, UNIT);
    assert_eq!(world.get(attacker_at).unwrap().energy, 10 * UNIT - 240_000);
    assert_eq!(world.count_cells(), 2);
}

#[test]
fn earlier_cell_is_seen_by_a_later_one_in_the_same_tick() {
    let mut world = World::with_seed(0);
    let first = Position::new(10, 350);
    let second = Position::new(11, 350);
    assert!(world.add(first, settler(10 * UNIT, 1, Gene::Nothing)));
    assert!(world.add(second, settler(4 * UNIT, 1, Gene::MoveEnergy(Direction::Left))));
    world.update();
    world.update();
    assert_eq!(world.get(first).unwrap().energy, 6_880_000);
    assert_eq!(world.get(second).unwrap().energy, 6_640_000);
}

#[test]
fn later_cell_is_not_seen_by_an_earlier_one_in_the_same_tick() {
    let mut world = World::with_seed(0);
    let first = Position::new(10, 350);
    let second = Position::new(11, 350);
    assert!(world.add(first, settler(10 * UNIT, 1, Gene::MoveEnergy(Direction::Right))));
    assert!(world.add(second, settler(4 * UNIT, 1, Gene::Nothing)));
    world.update();
    world.update();
    assert_eq!(world.get(first).unwrap().energy, 10 * UNIT - 240_000);
    assert_eq!(world.get(second).unwrap().energy, 4 * UNIT - 240_000);
}

#[test]
fn reproduction_in_a_tick_adds_a_cell() {
    let mut world = World::with_seed(0);
    let parent_at = Position::new(10, 350);
    assert!(world.add(parent_at, settler(5 * UNIT, 1, Gene::Reproduction(Direction::Right))));
    world.update();
    assert_eq!(world.count_cells(), 1);
    world.update();
    assert_eq!(world.count_cells(), 2);
    let parent = *world.get(parent_at).unwrap();
    assert_eq!(parent.energy, 2_500_000 - 240_000);
    assert_eq!(parent.lifetime, 1);
    let child = *world.get(Position::new(11, 350)).unwrap();
    assert_eq!(child.energy, 2_500_000);
    assert_eq!(child.lifetime, 0);
    assert_eq!(child.genome.step(), 0);
}

#[test]
fn contested_position_goes_to_the_first_writer() {
    let mut world = World::with_seed(0);
    let left = Position::new(10, 350);
    let right = Position::new(12, 350);
    assert!(world.add(left, settler(5 * UNIT, 1, Gene::Reproduction(Direction::Right))));
    assert!(world.add(right, settler(9 * UNIT, 2, Gene::Reproduction(Direction::Left))));
    world.update();
    world.update();
    assert_eq!(world.count_cells(), 3);
    let child = *world.get(Position::new(11, 350)).unwrap();
    assert_eq!(child.energy, 2_500_000);
    assert_eq!(world.get(left).unwrap().energy, 2_500_000 - 240_000);
    assert_eq!(world.get(right).unwrap().energy, 4_500_000 - 240_000);
}

#[test]
fn mobile_cell_falls_one_row_per_tick() {
    let mut world = World::with_seed(0);
    let mut cell = idler(500 * UNIT);
    cell.fixed = false;
    cell.max_lifetime = 0;
    assert!(world.add(Position::new(50, 100), cell));
    world.update();
    for tick in 1..=20 {
        world.update();
        assert_eq!(world.count_cells(), 1);
        assert!(world.get(Position::new(50, 100 + tick)).is_some());
        assert!(world.get(Position::new(50, 100 + tick - 1)).is_none());
    }
}

#[test]
fn falling_cells_pile_up_on_the_floor() {
    let mut world = World::with_seed(0);
    let mut cell = idler(500 * UNIT);
    cell.fixed = false;
    cell.max_lifetime = 0;
    assert!(world.add(Position::new(50, 357), cell));
    assert!(world.add(Position::new(50, 359), cell));
    world.update();
    for _ in 0..5 {
        world.update();
    }
    assert_eq!(world.count_cells(), 2);
    assert!(world.get(Position::new(50, 359)).is_some());
    assert!(world.get(Position::new(50, 358)).is_none());
    let left = world.get(Position::new(49, 359)).is_some();
    let right = world.get(Position::new(51, 359)).is_some();
    assert!(left != right);
}

#[test]
fn falling_cell_rests_on_a_full_row() {
    let mut world = World::with_seed(0);
    let mut cell = idler(500 * UNIT);
    cell.fixed = false;
    cell.max_lifetime = 0;
    for x in 49..52 {
        assert!(world.add(Position::new(x, 359), cell));
    }
    assert!(world.add(Position::new(50, 356), cell));
    world.update();
    for _ in 0..5 {
        world.update();
    }
    assert_eq!(world.count_cells(), 4);
    assert!(world.get(Position::new(50, 358)).is_some());
}

#[test]
fn seed_cell_at_fifty_hundred_starves_in_the_deep_dish() {
    let mut world = World::with_seed(0);
    let mut rng = Prng::from_seed(0);
    assert!(world.add(Position::new(50, 100), Cell::new(&mut rng)));
    world.update();
    assert_eq!(world.count_cells(), 1);
    world.update();
    assert_eq!(world.count_cells(), 1);
    let cell = *world.get(Position::new(50, 101)).unwrap();
    assert_eq!(cell.energy, 10_222_222 - 6_216_000);
    assert_eq!(cell.genome.step(), 1);
    world.update();
    assert_eq!(world.count_cells(), 0);
}

fn check_population(world: &World) -> usize {
    let cells = world.iter();
    let probe = World::with_seed(0);
    let mut last: Option<i32> = None;
    for (pos, cell) in cells.iter() {
        assert!(probe.is_valid_pos(*pos));
        assert!(cell.is_alive());
        let index = get_index(*pos);
        if let Some(before) = last {
            assert!(before < index);
        }
        last = Some(index);
        assert_eq!(world.get(*pos).unwrap().energy, cell.energy);
    }
    assert_eq!(cells.len(), world.count_cells());
    assert!(cells.len() <= SLOTS);
    cells.len()
}

#[test]
fn population_grows_from_a_seed_near_the_floor() {
    let mut world = World::with_seed(42);
    let mut rng = Prng::from_seed(42);
    assert!(world.add(Position::new(50, 359), Cell::new(&mut rng)));
    let mut before = 1;
    let mut grew = false;
    for _ in 0..60 {
        world.update();
        let now = check_population(&world);
        assert!(now <= 2 * before);
        if now > 1 {
            grew = true;
        }
        before = now.max(1);
    }
    assert!(grew);
}

#[test]
fn equal_seeds_give_equal_worlds() {
    let mut outcomes = Vec::new();
    for _ in 0..2 {
        let mut world = World::with_seed(7);
        let mut cell = settler(10 * UNIT, 1, Gene::Synthesis(TypeSynthesis::Energy));
        cell.fixed = false;
        cell.genome = Genome::new();
        assert!(world.add(Position::new(50, 359), cell));
        assert!(world.add(Position::new(80, 359), cell));
        for _ in 0..40 {
            world.update();
        }
        let summary: Vec<(Position, i64, u8)> =
            world.iter().iter().map(|(pos, cell)| (*pos, cell.energy, cell.family)).collect();
        outcomes.push(summary);
    }
    assert_eq!(outcomes[0], outcomes[1]);
    assert!(!outcomes[0].is_empty());
}

#[test]
fn world_rng_can_be_drawn_from() {
    let mut world = World::with_seed(5);
    let n = world.rng().range(0, 10);
    assert!(n < 10);
    let mut again = World::with_seed(5);
    assert_eq!(again.rng().range(0, 10), n);
}

#[test]
fn iter_mut_lists_the_grid_under_construction() {
    let mut world = World::with_seed(0);
    assert!(world.iter_mut().is_empty());
    let spots = [Position::new(5, 2), Position::new(3, 2), Position::new(1, 3)];
    for (i, pos) in spots.iter().enumerate() {
        assert!(world.add(*pos, settler(10 * UNIT, i as u8, Gene::Nothing)));
    }
    let listed = world.iter_mut();
    let positions: Vec<Position> = listed.iter().map(|entry| entry.0).collect();
    assert_eq!(positions, vec![Position::new(3, 2), Position::new(5, 2), Position::new(1, 3)]);
    let families: Vec<u8> = listed.iter().map(|entry| entry.1.family).collect();
    assert_eq!(families, vec![1, 0, 2]);
    assert!(world.iter().is_empty());
    assert_eq!(world.iter_mut().len(), 3);
    world.update();
    assert!(world.iter_mut().is_empty());
    assert_eq!(world.iter().len(), 3);
}

#[test]
fn iter_mut_with_get_mut_changes_every_waiting_cell() {
    let mut world = World::with_seed(0);
    for x in 1..6 {
        assert!(world.add(Position::new(x, 7), idler(10 * UNIT)));
    }
    for (pos, cell) in world.iter_mut() {
        world.get_mut(pos).unwrap().energy = cell.energy + pos.x() as i64;
    }
    world.update();
    for x in 1..6 {
        assert_eq!(world.get(Position::new(x, 7)).unwrap().energy, 10 * UNIT + x as i64);
    }
}

#[test]
fn iter_mut_shows_what_a_tick_will_not_commit() {
    let mut world = World::with_seed(0);
    assert!(world.add(Position::new(4, 4), idler(UNIT)));
    let listed = world.iter_mut();
    assert_eq!(listed.len(), 1);
    assert!(!listed[0].1.is_alive());
    world.update();
    assert_eq!(world.count_cells(), 0);
}

#[test]
fn population_after_a_tick_is_cells_plus_children_minus_deaths() {
    let mut world = World::with_seed(0);
    let breeder = settler(5 * UNIT, 1, Gene::Reproduction(Direction::Right));
    let starving = idler(1_400_000);
    let blocked = settler(5 * UNIT, 1, Gene::Reproduction(Direction::Left));
    assert!(world.add(Position::new(10, 350), breeder));
    assert!(world.add(Position::new(20, 350), breeder));
    assert!(world.add(Position::new(30, 350), starving));
    assert!(world.add(Position::new(40, 350), idler(10 * UNIT)));
    assert!(world.add(Position::new(41, 350), blocked));
    world.update();
    assert_eq!(world.count_cells(), 5);
    world.update();
    assert_eq!(world.count_cells(), 5 + 2 - 1);
    assert!(world.get(Position::new(11, 350)).is_some());
    assert!(world.get(Position::new(21, 350)).is_some());
    assert!(world.get(Position::new(30, 350)).is_none());
    assert_eq!(world.get(Position::new(41, 350)).unwrap().energy, 2_500_000 - 240_000);
}

#[test]
fn cell_killed_after_its_turn_leaves_the_account() {
    let mut world = World::with_seed(0);
    let mut victim = idler(10 * UNIT);
    victim.family = 2;
    victim.health = 2 * UNIT;
    assert!(world.add(Position::new(10, 350), victim));
    assert!(world.add(Position::new(11, 350), settler(10 * UNIT, 1, Gene::Attack(Direction::Left))));
    world.update();
    assert_eq!(world.count_cells(), 2);
    world.update();
    assert_eq!(world.count_cells(), 1);
    assert!(world.get(Position::new(10, 350)).is_none());
}
