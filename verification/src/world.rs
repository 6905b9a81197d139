//! The dish: which cell stands where, and the tick that advances them all.
//!
//! The world keeps two grids. The committed grid is what a tick starts from
//! and what `get`, `iter` and `count_cells` show. The next grid is the one
//! under construction: `add`, `del` and `get_mut` work on it, and a tick
//! turns it into the committed grid. A position is occupied when a cell
//! stands there in either grid.

use crate::cell::{
    fall_target, is_open, neighbour, turn_draws, updated, Cell, Turn, ENERGY_TO_REPRODUCE,
};
use crate::genome::Gene;
use crate::consts::RADIUS_PETRI_DISH;
use crate::math::{index_of, Position, WIDTH_WORLD};
use crate::random::{Draw, Prng};
use vstd::prelude::*;

verus! {

/// Width of the dish, in positions.
pub const WIDTH: i32 = 360;

/// Height of the dish, in positions.
pub const HEIGHT: i32 = RADIUS_PETRI_DISH * 2;

/// Number of positions of the dish, the boundary ring included.
pub const SLOTS: usize = 129_600;

/// Whether `pos` lies in the rectangle that the grids cover.
pub open spec fn on_board(pos: Position) -> bool {
    &&& 0 <= pos.x < WIDTH
    &&& 0 <= pos.y < HEIGHT
}

/// The position whose row-major number is `index`.
pub open spec fn position_at(index: int) -> Position {
    Position { x: (index % (WIDTH_WORLD as int)) as i32, y: (index / (WIDTH_WORLD as int)) as i32 }
}

/// The grid that a row of slots stands for: a cell at every position of the
/// board whose slot is filled.
spec fn layer(slots: Seq<Option<Cell>>) -> Map<Position, Cell> {
    Map::new(
        |pos: Position| on_board(pos) && slots[index_of(pos)] is Some,
        |pos: Position| slots[index_of(pos)]->0,
    )
}

/// Whether every filled slot lies in the interior of the dish.
spec fn interior_only(slots: Seq<Option<Cell>>) -> bool {
    forall|i: int|
        0 <= i < slots.len() && (#[trigger] slots[i]) is Some ==> World::is_valid(position_at(i))
}

/// Whether every cell in the slots lives.
spec fn living_only(slots: Seq<Option<Cell>>) -> bool {
    forall|i: int| 0 <= i < slots.len() && (#[trigger] slots[i]) is Some ==> slots[i]->0.is_alive()
}

/// The positions of the board whose slot number is below `upto` and whose
/// slot is filled.
spec fn filled_below(slots: Seq<Option<Cell>>, upto: int) -> Set<Position> {
    Set::new(|pos: Position| on_board(pos) && index_of(pos) < upto && slots[index_of(pos)] is Some)
}

/// Finitely many slots hold finitely many cells.
proof fn lemma_filled_below_is_finite(slots: Seq<Option<Cell>>, upto: int)
    requires
        0 <= upto <= SLOTS,
    ensures
        filled_below(slots, upto).finite(),
    decreases upto,
{
    lemma_slot_numbering();
    if upto == 0 {
        assert(filled_below(slots, upto) =~= Set::<Position>::empty());
    } else {
        lemma_filled_below_is_finite(slots, upto - 1);
        if slots[upto - 1] is Some {
            assert(filled_below(slots, upto) =~= filled_below(slots, upto - 1).insert(
                position_at(upto - 1),
            ));
        } else {
            assert(filled_below(slots, upto) =~= filled_below(slots, upto - 1));
        }
    }
}

/// Positions of the board and slot numbers correspond one to one.
pub proof fn lemma_slot_numbering()
    ensures
        forall|pos: Position|
            on_board(pos) ==> 0 <= #[trigger] index_of(pos) < SLOTS && position_at(index_of(pos))
                == pos,
        forall|i: int|
            0 <= i < SLOTS ==> on_board(#[trigger] position_at(i)) && index_of(position_at(i))
                == i,
{
}

/// The grid under construction once the cell of a finished turn has been
/// committed: a living cell is placed where it stands unless a cell is there
/// already; a dead one is dropped.
pub open spec fn committed(turn: Turn) -> Map<Position, Cell> {
    if turn.cell.is_alive() && !turn.next.contains_key(turn.pos) {
        turn.next.insert(turn.pos, turn.cell)
    } else {
        turn.next
    }
}

/// Whether the cell that the committed grid holds in slot `slot` can turn
/// the grid under construction from `before` into `after`, with the given
/// lot for its slide and the given child for its reproduction.
pub open spec fn slot_taken(
    grid: Map<Position, Cell>,
    before: Map<Position, Cell>,
    slot: int,
    lot: int,
    child: Cell,
    after: Map<Position, Cell>,
) -> bool {
    let pos = position_at(slot);
    let start = Turn { cell: grid[pos], pos, next: before };
    &&& 0 <= lot < 2
    &&& child.is_newborn_of(start.cell.divided())
    &&& after =~= committed(updated(start, grid, lot, child))
}

/// Whether dealing with slot `slot` can turn the grid under construction
/// from `before` into `after`: the cell of that slot, if there is one, has
/// its turn and is committed.
pub open spec fn slot_done(
    grid: Map<Position, Cell>,
    before: Map<Position, Cell>,
    slot: int,
    after: Map<Position, Cell>,
) -> bool {
    if grid.contains_key(position_at(slot)) {
        exists|lot: int, child: Cell| #[trigger] slot_taken(grid, before, slot, lot, child, after)
    } else {
        after =~= before
    }
}

/// Whether dealing with the first `slots` slots, in the order of their
/// numbers, can turn the grid under construction from `start` into `end`.
pub open spec fn ticked(
    grid: Map<Position, Cell>,
    start: Map<Position, Cell>,
    slots: int,
    end: Map<Position, Cell>,
) -> bool
    decreases slots,
{
    if slots <= 0 {
        end =~= start
    } else {
        exists|mid: Map<Position, Cell>|
            ticked(grid, start, slots - 1, mid) && #[trigger] slot_done(grid, mid, slots - 1, end)
    }
}

/// Dealing with one more slot extends what the slots before it have made.
pub proof fn lemma_ticked_extends(
    grid: Map<Position, Cell>,
    start: Map<Position, Cell>,
    slots: int,
    mid: Map<Position, Cell>,
    end: Map<Position, Cell>,
)
    requires
        slots >= 0,
        ticked(grid, start, slots, mid),
        slot_done(grid, mid, slots, end),
    ensures
        ticked(grid, start, slots + 1, end),
{
    assert(ticked(grid, start, (slots + 1) - 1, mid) && slot_done(grid, mid, (slots + 1) - 1, end));
}

/// Whether every cell of `cells` stands strictly inside the dish.
pub open spec fn inside(cells: Map<Position, Cell>) -> bool {
    forall|pos: Position| #[trigger] cells.contains_key(pos) ==> World::is_valid(pos)
}

/// Whether the grid under construction leaves free every position at which
/// the committed grid holds a cell whose slot number is `from_slot` or
/// higher, that is, a cell whose turn is still to come.
pub open spec fn apart(
    grid: Map<Position, Cell>,
    next: Map<Position, Cell>,
    from_slot: int,
) -> bool {
    forall|pos: Position|
        #[trigger] grid.contains_key(pos) && index_of(pos) >= from_slot ==> !next.contains_key(pos)
}

/// No cell is crowded out: if the grid under construction leaves free the
/// positions of the cells whose turn is still to come, then the cell of slot
/// `slot` ends its turn on a position that is free there, so that it is
/// committed if it lives, and the positions of the cells after it are still
/// free afterwards.
pub proof fn lemma_turn_ends_on_a_free_position(
    grid: Map<Position, Cell>,
    before: Map<Position, Cell>,
    slot: int,
    lot: int,
    child: Cell,
)
    requires
        0 <= slot < SLOTS,
        inside(grid),
        inside(before),
        grid.contains_key(position_at(slot)),
        apart(grid, before, slot),
    ensures
        ({
            let pos = position_at(slot);
            let out = updated(Turn { cell: grid[pos], pos, next: before }, grid, lot, child);
            &&& World::is_valid(out.pos)
            &&& !out.next.contains_key(out.pos)
            &&& inside(committed(out))
            &&& apart(grid, committed(out), slot + 1)
        }),
{
    lemma_slot_numbering();
}

/// A tick crowds no cell out: if no position holds a cell in both grids when
/// the tick starts, then after any number of turns the positions of the
/// cells whose turn is still to come are free in the grid under construction.
pub proof fn lemma_tick_keeps_turns_apart(
    grid: Map<Position, Cell>,
    start: Map<Position, Cell>,
    slots: int,
    end: Map<Position, Cell>,
)
    requires
        0 <= slots <= SLOTS,
        inside(grid),
        inside(start),
        apart(grid, start, 0),
        ticked(grid, start, slots, end),
    ensures
        inside(end),
        apart(grid, end, slots),
    decreases slots,
{
    if slots > 0 {
        let mid = choose|mid: Map<Position, Cell>|
            ticked(grid, start, slots - 1, mid) && #[trigger] slot_done(grid, mid, slots - 1, end);
        lemma_tick_keeps_turns_apart(grid, start, slots - 1, mid);
        if grid.contains_key(position_at(slots - 1)) {
            let (lot, child) = choose|lot: int, child: Cell| #[trigger]
                slot_taken(grid, mid, slots - 1, lot, child, end);
            lemma_turn_ends_on_a_free_position(grid, mid, slots - 1, lot, child);
        } else {
            lemma_slot_numbering();
        }
    }
}

/// Whether the cell of `turn` places a child in its turn: the gene under its
/// program counter is a reproduction, the cell has the energy for it, and
/// the target is open.
pub open spec fn places_child(turn: Turn, grid: Map<Position, Cell>, lot: int) -> bool {
    let fallen = fall_target(turn.cell.fixed, turn.pos, grid, turn.next, lot);
    match turn.cell.genome.codons()[turn.cell.genome.spec_step() as int] {
        Gene::Reproduction(dir) => {
            &&& turn.cell.energy > ENERGY_TO_REPRODUCE
            &&& is_open(grid, turn.next, neighbour(fallen, dir))
        },
        _ => false,
    }
}

/// The population account of one turn: the grid under construction gains
/// one cell if the cell of the slot lives when its turn is over, one more if
/// it has placed a child, and loses none.
pub proof fn lemma_turn_accounts(
    grid: Map<Position, Cell>,
    before: Map<Position, Cell>,
    slot: int,
    lot: int,
    child: Cell,
)
    requires
        0 <= slot < SLOTS,
        inside(grid),
        inside(before),
        before.dom().finite(),
        grid.contains_key(position_at(slot)),
        apart(grid, before, slot),
    ensures
        ({
            let pos = position_at(slot);
            let start = Turn { cell: grid[pos], pos, next: before };
            let out = updated(start, grid, lot, child);
            &&& committed(out).dom().finite()
            &&& committed(out).dom().len() == before.dom().len() + (if places_child(
                start,
                grid,
                lot,
            ) {
                1nat
            } else {
                0nat
            }) + (if out.cell.is_alive() {
                1nat
            } else {
                0nat
            })
        }),
{
    lemma_slot_numbering();
    lemma_turn_ends_on_a_free_position(grid, before, slot, lot, child);
    let pos = position_at(slot);
    let start = Turn { cell: grid[pos], pos, next: before };
    let out = updated(start, grid, lot, child);
    let fallen = fall_target(start.cell.fixed, pos, grid, before, lot);
    match start.cell.genome.codons()[start.cell.genome.spec_step() as int] {
        Gene::Reproduction(dir) => {
            let target = neighbour(fallen, dir);
            if places_child(start, grid, lot) {
                assert(out.next.dom() =~= before.dom().insert(target));
            } else {
                assert(out.next.dom() =~= before.dom());
            }
        },
        Gene::MoveEnergy(dir) => {
            assert(out.next.dom() =~= before.dom());
        },
        Gene::Attack(dir) => {
            assert(out.next.dom() =~= before.dom());
        },
        _ => {
            assert(out.next.dom() =~= before.dom());
        },
    }
    if out.cell.is_alive() {
        assert(committed(out).dom() =~= out.next.dom().insert(out.pos));
    }
}

/// The tally of a tick so far: how many children were placed, how many
/// cells lived when their turn was over, how many did not, and what was
/// drawn.
#[verifier::ext_equal]
pub struct Tally {
    pub placed: nat,
    pub kept: nat,
    pub lost: nat,
    pub drawn: Seq<Draw>,
}

impl Tally {
    /// The tally before the first turn.
    pub open spec fn zero() -> Tally {
        Tally { placed: 0, kept: 0, lost: 0, drawn: Seq::empty() }
    }

    /// This tally with one more turn: the turn of the cell of `turn`, in
    /// which `lot` is what gravity draws and `child_drawn` what the mutation
    /// of the child `child` draws.
    pub open spec fn with_turn(
        self,
        turn: Turn,
        grid: Map<Position, Cell>,
        lot: int,
        child: Cell,
        child_drawn: Seq<Draw>,
    ) -> Tally {
        let out = updated(turn, grid, lot, child);
        Tally {
            placed: if places_child(turn, grid, lot) {
                self.placed + 1
            } else {
                self.placed
            },
            kept: if out.cell.is_alive() {
                self.kept + 1
            } else {
                self.kept
            },
            lost: if out.cell.is_alive() {
                self.lost
            } else {
                self.lost + 1
            },
            drawn: self.drawn + turn_draws(turn, grid, lot, child_drawn),
        }
    }
}

/// Whether the cell that the committed grid holds in slot `slot` turns the
/// grid under construction from `before` into `after` and the tally from
/// `sofar` into `now`, with the given lot and the given child, which
/// `child_drawn` makes of the divided cell.
pub open spec fn slot_tallied(
    grid: Map<Position, Cell>,
    before: Map<Position, Cell>,
    slot: int,
    lot: int,
    child: Cell,
    child_drawn: Seq<Draw>,
    after: Map<Position, Cell>,
    sofar: Tally,
    now: Tally,
) -> bool {
    let pos = position_at(slot);
    let start = Turn { cell: grid[pos], pos, next: before };
    &&& slot_taken(grid, before, slot, lot, child, after)
    &&& child.is_newborn_by(start.cell.divided(), child_drawn)
    &&& now =~= sofar.with_turn(start, grid, lot, child, child_drawn)
}

/// Whether dealing with slot `slot` can turn the grid under construction
/// from `before` into `after` and the tally from `sofar` into `now`.
pub open spec fn slot_recorded(
    grid: Map<Position, Cell>,
    before: Map<Position, Cell>,
    slot: int,
    after: Map<Position, Cell>,
    sofar: Tally,
    now: Tally,
) -> bool {
    if grid.contains_key(position_at(slot)) {
        exists|lot: int, child: Cell, child_drawn: Seq<Draw>| #[trigger]
            slot_tallied(grid, before, slot, lot, child, child_drawn, after, sofar, now)
    } else {
        after =~= before && now =~= sofar
    }
}

/// Whether dealing with the first `slots` slots, in the order of their
/// numbers, can turn the grid under construction from `start` into `end`
/// with the tally `tally`.
pub open spec fn tallied(
    grid: Map<Position, Cell>,
    start: Map<Position, Cell>,
    slots: int,
    end: Map<Position, Cell>,
    tally: Tally,
) -> bool
    decreases slots,
{
    if slots <= 0 {
        end =~= start && tally =~= Tally::zero()
    } else {
        exists|mid: Map<Position, Cell>, sofar: Tally|
            tallied(grid, start, slots - 1, mid, sofar) && #[trigger] slot_recorded(
                grid,
                mid,
                slots - 1,
                end,
                sofar,
                tally,
            )
    }
}

/// Dealing with one more slot extends the tally of the slots before it.
pub proof fn lemma_tallied_extends(
    grid: Map<Position, Cell>,
    start: Map<Position, Cell>,
    slots: int,
    mid: Map<Position, Cell>,
    sofar: Tally,
    end: Map<Position, Cell>,
    now: Tally,
)
    requires
        slots >= 0,
        tallied(grid, start, slots, mid, sofar),
        slot_recorded(grid, mid, slots, end, sofar, now),
    ensures
        tallied(grid, start, slots + 1, end, now),
{
    assert(tallied(grid, start, (slots + 1) - 1, mid, sofar) && slot_recorded(
        grid,
        mid,
        (slots + 1) - 1,
        end,
        sofar,
        now,
    ));
}

/// A tick with a tally is a tick.
pub proof fn lemma_tallied_is_ticked(
    grid: Map<Position, Cell>,
    start: Map<Position, Cell>,
    slots: int,
    end: Map<Position, Cell>,
    tally: Tally,
)
    requires
        tallied(grid, start, slots, end, tally),
    ensures
        ticked(grid, start, slots, end),
    decreases slots,
{
    if slots > 0 {
        let (mid, sofar) = choose|mid: Map<Position, Cell>, sofar: Tally|
            tallied(grid, start, slots - 1, mid, sofar) && #[trigger] slot_recorded(
                grid,
                mid,
                slots - 1,
                end,
                sofar,
                tally,
            );
        lemma_tallied_is_ticked(grid, start, slots - 1, mid, sofar);
        assert(slot_done(grid, mid, slots - 1, end));
    }
}

/// The positions at which `grid` holds a cell whose slot number is below
/// `slots`: the cells that have had their turn when `slots` slots are dealt
/// with.
pub open spec fn turned(grid: Map<Position, Cell>, slots: int) -> Set<Position> {
    Set::new(|pos: Position| grid.contains_key(pos) && index_of(pos) < slots)
}

/// Every cell that has had its turn is in the tally once: it lived when its
/// turn was over, or it did not.
pub proof fn lemma_turns_are_tallied(
    grid: Map<Position, Cell>,
    start: Map<Position, Cell>,
    slots: int,
    end: Map<Position, Cell>,
    tally: Tally,
)
    requires
        0 <= slots <= SLOTS,
        inside(grid),
        tallied(grid, start, slots, end, tally),
    ensures
        turned(grid, slots).finite(),
        turned(grid, slots).len() == tally.kept + tally.lost,
    decreases slots,
{
    lemma_slot_numbering();
    if slots <= 0 {
        assert(turned(grid, slots) =~= Set::<Position>::empty());
    } else {
        let (mid, sofar) = choose|mid: Map<Position, Cell>, sofar: Tally|
            tallied(grid, start, slots - 1, mid, sofar) && #[trigger] slot_recorded(
                grid,
                mid,
                slots - 1,
                end,
                sofar,
                tally,
            );
        lemma_turns_are_tallied(grid, start, slots - 1, mid, sofar);
        let pos = position_at(slots - 1);
        if grid.contains_key(pos) {
            assert(turned(grid, slots) =~= turned(grid, slots - 1).insert(pos));
        } else {
            assert(turned(grid, slots) =~= turned(grid, slots - 1));
        }
    }
}

/// The population account of a tick. If no position holds a cell in both
/// grids when the tick starts, then after any number of slots the grid under
/// construction holds what it held at the start, one cell more for every
/// cell that lived when its turn was over, and one more for every child that
/// was placed.
pub proof fn lemma_tick_accounts(
    grid: Map<Position, Cell>,
    start: Map<Position, Cell>,
    slots: int,
    end: Map<Position, Cell>,
    tally: Tally,
)
    requires
        0 <= slots <= SLOTS,
        inside(grid),
        inside(start),
        apart(grid, start, 0),
        start.dom().finite(),
        tallied(grid, start, slots, end, tally),
    ensures
        end.dom().finite(),
        end.dom().len() == start.dom().len() + tally.placed + tally.kept,
    decreases slots,
{
    lemma_slot_numbering();
    if slots > 0 {
        let (mid, sofar) = choose|mid: Map<Position, Cell>, sofar: Tally|
            tallied(grid, start, slots - 1, mid, sofar) && #[trigger] slot_recorded(
                grid,
                mid,
                slots - 1,
                end,
                sofar,
                tally,
            );
        lemma_tick_accounts(grid, start, slots - 1, mid, sofar);
        lemma_tallied_is_ticked(grid, start, slots - 1, mid, sofar);
        lemma_tick_keeps_turns_apart(grid, start, slots - 1, mid);
        let pos = position_at(slots - 1);
        if grid.contains_key(pos) {
            let (lot, child, child_drawn) = choose|lot: int, child: Cell, child_drawn: Seq<Draw>|
             #[trigger]
                slot_tallied(grid, mid, slots - 1, lot, child, child_drawn, end, sofar, tally);
            lemma_turn_accounts(grid, mid, slots - 1, lot, child);
        }
    }
}

/// The population account of a whole tick in which nothing waits in the grid
/// under construction and no cell is killed after its turn: the living
/// cells after the tick are as many as the cells before it, plus the
/// children placed, minus the cells that did not live when their turn was
/// over.
pub proof fn lemma_population_after_a_tick(
    grid: Map<Position, Cell>,
    end: Map<Position, Cell>,
    tally: Tally,
)
    requires
        inside(grid),
        tallied(grid, Map::<Position, Cell>::empty(), SLOTS as int, end, tally),
        survivors(end) == end,
    ensures
        grid.dom().finite(),
        survivors(end).dom().finite(),
        survivors(end).dom().len() == grid.dom().len() + tally.placed - tally.lost,
{
    lemma_slot_numbering();
    lemma_tick_accounts(grid, Map::<Position, Cell>::empty(), SLOTS as int, end, tally);
    lemma_turns_are_tallied(grid, Map::<Position, Cell>::empty(), SLOTS as int, end, tally);
    assert(turned(grid, SLOTS as int) =~= grid.dom());
}

/// No living cell is lost: in a tick that starts with no position filled in
/// both grids, a cell that lives when its turn is over is committed where it
/// then stands.
pub proof fn lemma_living_cell_is_committed(
    grid: Map<Position, Cell>,
    start: Map<Position, Cell>,
    slot: int,
    before: Map<Position, Cell>,
    lot: int,
    child: Cell,
)
    requires
        0 <= slot < SLOTS,
        inside(grid),
        inside(start),
        apart(grid, start, 0),
        ticked(grid, start, slot, before),
        grid.contains_key(position_at(slot)),
    ensures
        ({
            let pos = position_at(slot);
            let out = updated(Turn { cell: grid[pos], pos, next: before }, grid, lot, child);
            out.cell.is_alive() ==> committed(out) == out.next.insert(out.pos, out.cell)
        }),
{
    lemma_tick_keeps_turns_apart(grid, start, slot, before);
    lemma_turn_ends_on_a_free_position(grid, before, slot, lot, child);
}

/// The living among `cells`.
pub open spec fn survivors(cells: Map<Position, Cell>) -> Map<Position, Cell> {
    Map::new(|pos: Position| cells.contains_key(pos) && cells[pos].is_alive(), |pos: Position| cells[pos])
}

/// A row of `SLOTS` empty slots.
fn empty_layer() -> (slots: Vec<Option<Cell>>)
    ensures
        slots@.len() == SLOTS,
        forall|i: int| 0 <= i < SLOTS ==> (#[trigger] slots@[i]) is None,
{
    let mut slots: Vec<Option<Cell>> = Vec::with_capacity(SLOTS);
    while slots.len() < SLOTS
        invariant
            slots@.len() <= SLOTS,
            forall|i: int| 0 <= i < slots@.len() ==> (#[trigger] slots@[i]) is None,
        decreases SLOTS - slots@.len(),
    {
        slots.push(None);
    }
    slots
}

/// Whether `cells` lists `grid` in the order of the slot numbers: every
/// entry is a cell of the grid with its position, the slot numbers rise from
/// entry to entry, and no cell of the grid is left out.
pub open spec fn lists(cells: Seq<(Position, Cell)>, grid: Map<Position, Cell>) -> bool {
    &&& forall|i: int|
        0 <= i < cells.len() ==> grid.contains_key((#[trigger] cells[i]).0) && grid[cells[i].0]
            == cells[i].1
    &&& forall|i: int, j: int|
        0 <= i < j < cells.len() ==> index_of((#[trigger] cells[i]).0) < index_of(
            (#[trigger] cells[j]).0,
        )
    &&& forall|pos: Position|
        grid.contains_key(pos) ==> exists|i: int|
            0 <= i < cells.len() && (#[trigger] cells[i]).0 == pos
}

/// The cells in a row of slots with their positions, in the order of the
/// slot numbers.
fn listing(slots: &Vec<Option<Cell>>) -> (cells: Vec<(Position, Cell)>)
    requires
        slots@.len() == SLOTS,
    ensures
        lists(cells@, layer(slots@)),
{
    proof {
        lemma_slot_numbering();
    }
    let ghost grid = layer(slots@);
    let mut cells: Vec<(Position, Cell)> = Vec::new();
    let mut slot: usize = 0;
    while slot < SLOTS
        invariant
            slot <= SLOTS,
            slots@.len() == SLOTS,
            grid == layer(slots@),
            forall|i: int|
                0 <= i < cells@.len() ==> grid.contains_key((#[trigger] cells@[i]).0)
                    && grid[cells@[i].0] == cells@[i].1 && index_of(cells@[i].0) < slot,
            forall|i: int, j: int|
                0 <= i < j < cells@.len() ==> index_of((#[trigger] cells@[i]).0) < index_of(
                    (#[trigger] cells@[j]).0,
                ),
            forall|pos: Position|
                grid.contains_key(pos) && index_of(pos) < slot ==> exists|i: int|
                    0 <= i < cells@.len() && (#[trigger] cells@[i]).0 == pos,
        decreases SLOTS - slot,
    {
        proof {
            lemma_slot_numbering();
        }
        let ghost earlier = cells@;
        match slots[slot] {
            Some(cell) => {
                let pos = Position::new(
                    (slot % (WIDTH_WORLD as usize)) as i32,
                    (slot / (WIDTH_WORLD as usize)) as i32,
                );
                assert(pos == position_at(slot as int));
                cells.push((pos, cell));
                assert(forall|i: int| 0 <= i < earlier.len() ==> cells@[i] == earlier[i]);
                assert forall|at: Position|
                    grid.contains_key(at) && index_of(at) < slot + 1 implies exists|i: int|
                        0 <= i < cells@.len() && (#[trigger] cells@[i]).0 == at by {
                    if index_of(at) < slot {
                        let i = choose|i: int|
                            0 <= i < earlier.len() && (#[trigger] earlier[i]).0 == at;
                        assert(cells@[i].0 == at);
                    } else {
                        assert(cells@[earlier.len() as int].0 == at);
                    }
                }
            },
            None => {},
        }
        slot += 1;
    }
    cells
}

/// The dish and the cells in it.
pub struct World {
    active_cells: Vec<Option<Cell>>,
    buffer: Vec<Option<Cell>>,
    width: i32,
    height: i32,
    rng: Prng,
}

impl World {
    /// Both grids cover the whole board and hold cells in the interior only,
    /// and every cell of the committed grid lives.
    pub closed spec fn wf(&self) -> bool {
        &&& self.width == WIDTH
        &&& self.height == HEIGHT
        &&& self.active_cells@.len() == SLOTS
        &&& self.buffer@.len() == SLOTS
        &&& interior_only(self.active_cells@)
        &&& interior_only(self.buffer@)
        &&& living_only(self.active_cells@)
    }

    /// Whether `pos` lies strictly inside the dish. The outermost ring of
    /// positions is the wall.
    pub open spec fn is_valid(pos: Position) -> bool {
        &&& 0 < pos.x < WIDTH
        &&& 0 < pos.y < HEIGHT
    }

    /// The committed grid.
    pub closed spec fn grid(&self) -> Map<Position, Cell> {
        layer(self.active_cells@)
    }

    /// The grid under construction.
    pub closed spec fn next_grid(&self) -> Map<Position, Cell> {
        layer(self.buffer@)
    }

    /// The generator that the world's random choices come from.
    pub closed spec fn generator(&self) -> Prng {
        self.rng
    }

    /// Whether no position holds a cell in both grids. This holds of a new
    /// world and after every tick, and `add`, `del` and `get_mut` keep it.
    pub open spec fn settled(&self) -> bool {
        apart(self.grid(), self.next_grid(), 0)
    }

    /// Whether no cell stands at `pos`, in either grid.
    pub open spec fn is_free(&self, pos: Position) -> bool {
        &&& !self.grid().contains_key(pos)
        &&& !self.next_grid().contains_key(pos)
    }

    /// A world with both grids empty and the given generator.
    fn with_rng(rng: Prng) -> (world: World)
        ensures
            world.wf(),
            world.settled(),
            world.grid() == Map::<Position, Cell>::empty(),
            world.next_grid() == Map::<Position, Cell>::empty(),
            world.generator() == rng,
    {
        let world = Self {
            active_cells: empty_layer(),
            buffer: empty_layer(),
            width: WIDTH,
            height: HEIGHT,
            rng,
        };
        assert(world.grid() =~= Map::<Position, Cell>::empty());
        assert(world.next_grid() =~= Map::<Position, Cell>::empty());
        world
    }

    /// An empty world whose generator is seeded by the operating system and
    /// has not been drawn from yet, or nothing where the operating system
    /// gives no entropy.
    pub fn new() -> (made: Option<World>)
        ensures
            made matches Some(world) ==> {
                &&& world.wf()
                &&& world.settled()
                &&& world.grid() == Map::<Position, Cell>::empty()
                &&& world.next_grid() == Map::<Position, Cell>::empty()
                &&& world.generator().seeded_by() == None::<u64>
                &&& world.generator().draws() == Seq::<Draw>::empty()
            },
    {
        match Prng::from_entropy() {
            Some(rng) => Some(Self::with_rng(rng)),
            None => None,
        }
    }

    /// An empty world whose random choices are fixed by `seed`: its
    /// generator is seeded with `seed` and has not been drawn from yet.
    pub fn with_seed(seed: u64) -> (world: World)
        ensures
            world.wf(),
            world.settled(),
            world.grid() == Map::<Position, Cell>::empty(),
            world.next_grid() == Map::<Position, Cell>::empty(),
            world.generator().seeded_by() == Some(seed),
            world.generator().draws() == Seq::<Draw>::empty(),
    {
        Self::with_rng(Prng::from_seed(seed))
    }

    /// Whether `pos` lies strictly inside the dish.
    pub fn is_valid_pos(&self, pos: Position) -> (valid: bool)
        requires
            self.wf(),
        ensures
            valid == World::is_valid(pos),
    {
        pos.x() < self.width && pos.y() < self.height && pos.x() > 0 && pos.y() > 0
    }

    /// Whether `pos` lies strictly inside the dish and no cell stands there,
    /// in either grid.
    pub fn is_open_pos(&self, pos: Position) -> (open: bool)
        requires
            self.wf(),
        ensures
            open == (World::is_valid(pos) && self.is_free(pos)),
    {
        proof {
            lemma_slot_numbering();
        }
        if !self.is_valid_pos(pos) {
            return false;
        }
        let slot = pos.to_index();
        self.active_cells[slot].is_none() && self.buffer[slot].is_none()
    }

    /// The generator that the world's random choices come from, for drawing
    /// from it: what is drawn from it is drawn from the world's generator,
    /// and the grids stay as they are.
    pub fn rng(&mut self) -> (rng: &mut Prng)
        requires
            old(self).wf(),
        ensures
            *rng == old(self).generator(),
            final(self).generator() == *final(rng),
            final(self).wf(),
            final(self).grid() == old(self).grid(),
            final(self).next_grid() == old(self).next_grid(),
    {
        &mut self.rng
    }

    /// The cell that the committed grid holds at `pos`.
    pub fn get(&self, pos: Position) -> (found: Option<&Cell>)
        requires
            self.wf(),
        ensures
            match found {
                Some(cell) => self.grid().contains_key(pos) && *cell == self.grid()[pos],
                None => !self.grid().contains_key(pos),
            },
    {
        proof {
            lemma_slot_numbering();
        }
        if !self.is_valid_pos(pos) {
            return None;
        }
        self.active_cells[pos.to_index()].as_ref()
    }

    /// The cell that the next grid holds at `pos`, for changing it in place.
    pub fn get_mut(&mut self, pos: Position) -> (found: Option<&mut Cell>)
        requires
            old(self).wf(),
        ensures
            final(self).wf(),
            old(self).settled() ==> final(self).settled(),
            final(self).grid() == old(self).grid(),
            final(self).generator() == old(self).generator(),
            match found {
                Some(cell) => {
                    &&& old(self).next_grid().contains_key(pos)
                    &&& *cell == old(self).next_grid()[pos]
                    &&& final(self).next_grid() == old(self).next_grid().insert(pos, *final(cell))
                },
                None => {
                    &&& !old(self).next_grid().contains_key(pos)
                    &&& final(self).next_grid() == old(self).next_grid()
                },
            },
    {
        proof {
            lemma_slot_numbering();
        }
        if !self.is_valid_pos(pos) {
            return None;
        }
        let slot = pos.to_index();
        let found = self.buffer[slot].as_mut();
        found
    }

    /// Places `cell` at `pos` in the next grid if `pos` lies inside the dish
    /// and is free; otherwise nothing changes. Tells whether the cell was
    /// placed.
    pub fn add(&mut self, pos: Position, cell: Cell) -> (added: bool)
        requires
            old(self).wf(),
        ensures
            final(self).wf(),
            final(self).grid() == old(self).grid(),
            added == (World::is_valid(pos) && old(self).is_free(pos)),
            added ==> final(self).next_grid() == old(self).next_grid().insert(pos, cell),
            !added ==> final(self).next_grid() == old(self).next_grid(),
            old(self).settled() ==> final(self).settled(),
            final(self).generator() == old(self).generator(),
    {
        proof {
            lemma_slot_numbering();
        }
        if !self.is_valid_pos(pos) {
            return false;
        }
        let slot = pos.to_index();
        if self.active_cells[slot].is_some() || self.buffer[slot].is_some() {
            return false;
        }
        self.buffer[slot] = Some(cell);
        assert(self.next_grid() =~= old(self).next_grid().insert(pos, cell));
        true
    }

    /// Removes the cell at `pos` from both grids. Tells whether there was
    /// one.
    pub fn del(&mut self, pos: Position) -> (removed: bool)
        requires
            old(self).wf(),
        ensures
            final(self).wf(),
            removed == !old(self).is_free(pos),
            final(self).grid() == old(self).grid().remove(pos),
            final(self).next_grid() == old(self).next_grid().remove(pos),
            old(self).settled() ==> final(self).settled(),
            final(self).generator() == old(self).generator(),
    {
        proof {
            lemma_slot_numbering();
        }
        if !self.is_valid_pos(pos) {
            assert(self.grid() =~= old(self).grid().remove(pos));
            assert(self.next_grid() =~= old(self).next_grid().remove(pos));
            return false;
        }
        let slot = pos.to_index();
        let removed = self.active_cells[slot].is_some() || self.buffer[slot].is_some();
        self.active_cells[slot] = None;
        self.buffer[slot] = None;
        assert(self.grid() =~= old(self).grid().remove(pos));
        assert(self.next_grid() =~= old(self).next_grid().remove(pos));
        removed
    }

    /// The number of cells in the committed grid. It never exceeds the
    /// number of positions of the dish.
    pub fn count_cells(&self) -> (count: usize)
        requires
            self.wf(),
        ensures
            self.grid().dom().finite(),
            count == self.grid().dom().len(),
            count <= SLOTS,
    {
        proof {
            lemma_slot_numbering();
        }
        let mut count: usize = 0;
        let mut slot: usize = 0;
        assert(filled_below(self.active_cells@, 0) =~= Set::<Position>::empty());
        while slot < SLOTS
            invariant
                slot <= SLOTS,
                count <= slot,
                self.wf(),
                filled_below(self.active_cells@, slot as int).finite(),
                filled_below(self.active_cells@, slot as int).len() == count,
            decreases SLOTS - slot,
        {
            proof {
                lemma_slot_numbering();
                let before = filled_below(self.active_cells@, slot as int);
                let after = filled_below(self.active_cells@, slot + 1);
                if self.active_cells@[slot as int] is Some {
                    assert(after =~= before.insert(position_at(slot as int)));
                } else {
                    assert(after =~= before);
                }
            }
            if self.active_cells[slot].is_some() {
                count += 1;
            }
            slot += 1;
        }
        assert(filled_below(self.active_cells@, SLOTS as int) =~= self.grid().dom());
        count
    }

    /// The cells of the committed grid with their positions, in the order of
    /// the slot numbers: row by row from the top, each row from the left.
    pub fn iter(&self) -> (cells: Vec<(Position, Cell)>)
        requires
            self.wf(),
        ensures
            lists(cells@, self.grid()),
    {
        listing(&self.active_cells)
    }

    /// The cells of the grid under construction with their positions, in the
    /// order of the slot numbers. The world stays as it is; to change one of
    /// the cells, take it with `get_mut` at its position.
    pub fn iter_mut(&mut self) -> (cells: Vec<(Position, Cell)>)
        requires
            old(self).wf(),
        ensures
            lists(cells@, old(self).next_grid()),
            final(self).wf(),
            final(self).grid() == old(self).grid(),
            final(self).next_grid() == old(self).next_grid(),
            final(self).generator() == old(self).generator(),
    {
        listing(&self.buffer)
    }

    /// No dead cell is ever in the committed grid.
    pub proof fn lemma_committed_cells_live(&self)
        requires
            self.wf(),
        ensures
            forall|pos: Position| #[trigger]
                self.grid().contains_key(pos) ==> self.grid()[pos].is_alive(),
    {
        lemma_slot_numbering();
    }

    /// Both grids hold finitely many cells.
    pub proof fn lemma_grids_are_finite(&self)
        requires
            self.wf(),
        ensures
            self.grid().dom().finite(),
            self.next_grid().dom().finite(),
    {
        lemma_slot_numbering();
        lemma_filled_below_is_finite(self.active_cells@, SLOTS as int);
        lemma_filled_below_is_finite(self.buffer@, SLOTS as int);
        assert(filled_below(self.active_cells@, SLOTS as int) =~= self.grid().dom());
        assert(filled_below(self.buffer@, SLOTS as int) =~= self.next_grid().dom());
    }

    /// The bounds invariant: no cell stands on the wall or beyond it, in
    /// either grid.
    pub proof fn lemma_cells_stand_inside(&self)
        requires
            self.wf(),
        ensures
            inside(self.grid()),
            inside(self.next_grid()),
    {
        lemma_slot_numbering();
    }

    /// Commits a cell whose turn is over: a living one is placed at `pos` in
    /// the next grid unless a cell is there already; a dead one is dropped.
    fn commit(&mut self, pos: Position, cell: Cell)
        requires
            old(self).wf(),
            World::is_valid(pos),
        ensures
            final(self).wf(),
            final(self).grid() == old(self).grid(),
            final(self).next_grid() == committed(
                Turn { cell, pos, next: old(self).next_grid() },
            ),
            final(self).generator() == old(self).generator(),
    {
        proof {
            lemma_slot_numbering();
        }
        let target = pos.to_index();
        if cell.is_alive() && self.buffer[target].is_none() {
            self.buffer[target] = Some(cell);
            assert(self.next_grid() =~= old(self).next_grid().insert(pos, cell));
        }
    }

    /// Deals with one slot of the committed grid: the cell in it, if there
    /// is one, has its turn and is committed. `sofar` is the tally of the
    /// slots before it, and the tally with this slot comes back.
    fn take_turn(&mut self, slot: usize, Ghost(sofar): Ghost<Tally>) -> (now: Ghost<Tally>)
        requires
            old(self).wf(),
            slot < SLOTS,
        ensures
            final(self).wf(),
            final(self).grid() == old(self).grid(),
            final(self).generator().seeded_by() == old(self).generator().seeded_by(),
            slot_recorded(
                old(self).grid(),
                old(self).next_grid(),
                slot as int,
                final(self).next_grid(),
                sofar,
                now@,
            ),
            exists|drawn: Seq<Draw>|
                {
                    &&& #[trigger] (sofar.drawn + drawn) == now@.drawn
                    &&& final(self).generator().draws() == old(self).generator().draws() + drawn
                },
    {
        let ghost grid = self.grid();
        let ghost mid = self.next_grid();
        let ghost drawn_before = self.generator().draws();
        proof {
            lemma_slot_numbering();
        }
        match self.active_cells[slot] {
            Some(found) => {
                let mut cell = found;
                let mut pos = Position::new(
                    (slot % (WIDTH_WORLD as usize)) as i32,
                    (slot / (WIDTH_WORLD as usize)) as i32,
                );
                assert(pos == position_at(slot as int));
                assert(grid.contains_key(pos) && grid[pos] == found);
                let ghost before = Turn { cell, pos, next: mid };
                cell.update(&mut pos, self);
                let ghost after = Turn { cell, pos, next: self.next_grid() };
                let ghost (lot, child, child_drawn) = choose|
                    lot: int,
                    child: Cell,
                    child_drawn: Seq<Draw>,
                |
                    {
                        &&& #[trigger] crate::cell::turn_recorded(
                            before,
                            grid,
                            lot,
                            child,
                            child_drawn,
                            after,
                        )
                        &&& self.generator().draws() == drawn_before + turn_draws(
                            before,
                            grid,
                            lot,
                            child_drawn,
                        )
                    };
                self.commit(pos, cell);
                let ghost now = sofar.with_turn(before, grid, lot, child, child_drawn);
                assert(slot_taken(grid, mid, slot as int, lot, child, self.next_grid()));
                assert(slot_tallied(
                    grid,
                    mid,
                    slot as int,
                    lot,
                    child,
                    child_drawn,
                    self.next_grid(),
                    sofar,
                    now,
                ));
                assert(sofar.drawn + turn_draws(before, grid, lot, child_drawn) == now.drawn);
                Ghost(now)
            },
            None => {
                assert(!grid.contains_key(position_at(slot as int)));
                assert(sofar.drawn + Seq::<Draw>::empty() =~= sofar.drawn);
                assert(self.generator().draws() =~= drawn_before + Seq::<Draw>::empty());
                Ghost(sofar)
            },
        }
    }

    /// Advances the world by one tick. Every cell of the committed grid has
    /// its turn, in the order of the slot numbers, and is then committed to
    /// the grid under construction. After the last turn the living cells of
    /// that grid become the committed grid, and the grid under construction
    /// is empty again. What the tick draws is what its turns draw, one after
    /// the other.
    pub fn update(&mut self)
        requires
            old(self).wf(),
        ensures
            final(self).wf(),
            final(self).settled(),
            inside(final(self).grid()),
            final(self).next_grid() == Map::<Position, Cell>::empty(),
            forall|pos: Position| #[trigger]
                final(self).grid().contains_key(pos) ==> final(self).grid()[pos].is_alive(),
            exists|end: Map<Position, Cell>| #[trigger]
                ticked(old(self).grid(), old(self).next_grid(), SLOTS as int, end)
                    && final(self).grid() == survivors(end),
            final(self).generator().seeded_by() == old(self).generator().seeded_by(),
            exists|end: Map<Position, Cell>, tally: Tally|
                {
                    &&& #[trigger] tallied(
                        old(self).grid(),
                        old(self).next_grid(),
                        SLOTS as int,
                        end,
                        tally,
                    )
                    &&& final(self).grid() == survivors(end)
                    &&& final(self).generator().draws() == old(self).generator().draws()
                        + tally.drawn
                    &&& old(self).grid().dom().len() == tally.kept + tally.lost
                    &&& old(self).settled() ==> end.dom().len() == old(self).next_grid().dom().len()
                        + tally.placed + tally.kept
                },
    {
        let ghost grid = self.grid();
        let ghost start = self.next_grid();
        proof {
            self.lemma_grids_are_finite();
            self.lemma_cells_stand_inside();
        }
        let ghost drawn_before = self.generator().draws();
        let ghost mut tally = Tally::zero();
        let mut slot: usize = 0;
        assert(self.generator().draws() =~= drawn_before + tally.drawn);
        while slot < SLOTS
            invariant
                slot <= SLOTS,
                self.wf(),
                self.grid() == grid,
                self.generator().seeded_by() == old(self).generator().seeded_by(),
                tallied(grid, start, slot as int, self.next_grid(), tally),
                self.generator().draws() == drawn_before + tally.drawn,
            decreases SLOTS - slot,
        {
            let ghost mid = self.next_grid();
            let ghost sofar = tally;
            let ghost drawn_mid = self.generator().draws();
            let now = self.take_turn(slot, Ghost(tally));
            proof {
                tally = now@;
                lemma_tallied_extends(grid, start, slot as int, mid, sofar, self.next_grid(), tally);
                let drawn = choose|drawn: Seq<Draw>|
                    {
                        &&& #[trigger] (sofar.drawn + drawn) == tally.drawn
                        &&& self.generator().draws() == drawn_mid + drawn
                    };
                assert(self.generator().draws() =~= drawn_before + tally.drawn);
            }
            slot += 1;
        }
        proof {
            lemma_tallied_is_ticked(grid, start, SLOTS as int, self.next_grid(), tally);
            lemma_turns_are_tallied(grid, start, SLOTS as int, self.next_grid(), tally);
            lemma_slot_numbering();
            assert(turned(grid, SLOTS as int) =~= grid.dom());
            if old(self).settled() {
                lemma_tick_accounts(grid, start, SLOTS as int, self.next_grid(), tally);
            }
        }
        let ghost generator = self.generator();
        let ghost end = self.next_grid();
        let ghost filled = self.buffer@;
        let mut slot: usize = 0;
        while slot < SLOTS
            invariant
                slot <= SLOTS,
                self.width == WIDTH,
                self.height == HEIGHT,
                self.active_cells@.len() == SLOTS,
                self.buffer@.len() == SLOTS,
                filled.len() == SLOTS,
                interior_only(filled),
                self.generator() == generator,
                forall|i: int| slot <= i < SLOTS ==> (#[trigger] self.buffer@[i]) == filled[i],
                forall|i: int| 0 <= i < slot ==> (#[trigger] self.buffer@[i]) is None,
                forall|i: int|
                    0 <= i < slot ==> (#[trigger] self.active_cells@[i]) == (match filled[i] {
                        Some(cell) => if cell.is_alive() {
                            Some(cell)
                        } else {
                            None
                        },
                        None => None,
                    }),
            decreases SLOTS - slot,
        {
            let kept: Option<Cell> = match self.buffer[slot] {
                Some(cell) => if cell.is_alive() {
                    Some(cell)
                } else {
                    None
                },
                None => None,
            };
            self.active_cells[slot] = kept;
            self.buffer[slot] = None;
            slot += 1;
        }
        assert(self.grid() =~= survivors(end));
        assert(self.next_grid() =~= Map::<Position, Cell>::empty());
        proof {
            self.lemma_cells_stand_inside();
        }
    }
}

} // verus!
