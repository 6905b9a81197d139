//! Grid geometry: positions and the eight directions between neighbours.

use crate::consts::RADIUS_PETRI_DISH;
use crate::etc::{chance, is_mutated};
use crate::random::{Draw, Prng};
use crate::traits::{GetRandomVariant, Mutable};
use vstd::prelude::*;

verus! {

/// Number of positions in one row when positions are numbered row by row.
pub const WIDTH_WORLD: i32 = RADIUS_PETRI_DISH * 2;

/// A point of the grid. `x` grows to the right and `y` grows downwards.
#[derive(Clone, Copy, PartialEq, Eq, Hash, Debug, Structural)]
pub struct Position {
    pub x: i32,
    pub y: i32,
}

/// The row-major number of a position: rows of `WIDTH_WORLD` positions,
/// numbered from the top.
pub open spec fn index_of(pos: Position) -> int {
    pos.y * WIDTH_WORLD + pos.x
}

/// The row-major number of `pos`.
pub fn get_index(pos: Position) -> (index: i32)
    requires
        i32::MIN <= index_of(pos) <= i32::MAX,
    ensures
        index == index_of(pos),
{
    let wide: i64 = pos.y as i64 * WIDTH_WORLD as i64 + pos.x as i64;
    wide as i32
}

impl Position {
    /// The position with the given coordinates.
    pub fn new(x: i32, y: i32) -> (pos: Self)
        ensures
            pos == (Position { x, y }),
    {
        Self { x, y }
    }

    /// The row-major number of this position, as an index.
    pub fn to_index(self) -> (index: usize)
        requires
            0 <= index_of(self) <= i32::MAX,
        ensures
            index == index_of(self),
    {
        get_index(self) as usize
    }

    /// The horizontal coordinate.
    pub fn x(&self) -> (x: i32)
        ensures
            x == self.x,
    {
        self.x
    }

    /// The vertical coordinate.
    pub fn y(&self) -> (y: i32)
        ensures
            y == self.y,
    {
        self.y
    }

    /// The horizontal coordinate, for changing it in place.
    pub fn get_mut_x(&mut self) -> (x: &mut i32)
        ensures
            *x == old(self).x,
            *final(self) == (Position { x: *final(x), y: old(self).y }),
    {
        &mut self.x
    }

    /// The vertical coordinate, for changing it in place.
    pub fn get_mut_y(&mut self) -> (y: &mut i32)
        ensures
            *y == old(self).y,
            *final(self) == (Position { x: old(self).x, y: *final(y) }),
    {
        &mut self.y
    }

    /// Replaces the horizontal coordinate.
    pub fn set_x(&mut self, value: i32)
        ensures
            *final(self) == (Position { x: value, y: old(self).y }),
    {
        self.x = value;
    }

    /// Replaces the vertical coordinate.
    pub fn set_y(&mut self, value: i32)
        ensures
            *final(self) == (Position { x: old(self).x, y: value }),
    {
        self.y = value;
    }

    /// This position moved by `(dx, dy)`.
    pub open spec fn shifted(self, dx: int, dy: int) -> Position {
        Position { x: (self.x + dx) as i32, y: (self.y + dy) as i32 }
    }

    /// Whether moving by `(dx, dy)` stays within the coordinate range.
    pub open spec fn can_shift(self, dx: int, dy: int) -> bool {
        &&& i32::MIN <= self.x + dx <= i32::MAX
        &&& i32::MIN <= self.y + dy <= i32::MAX
    }
}

/// One of the eight steps from a position to a neighbour.
#[derive(Debug, Clone, Copy, PartialEq, Eq, Structural)]
pub enum Direction {
    LeftDown,
    Left,
    LeftTop,
    Top,
    RightTop,
    Right,
    RightDown,
    Down,
}

impl Direction {
    /// The step `(dx, dy)` that this direction stands for.
    pub open spec fn delta(self) -> (int, int) {
        match self {
            Direction::LeftDown => (-1, 1),
            Direction::Left => (-1, 0),
            Direction::LeftTop => (-1, -1),
            Direction::Top => (0, -1),
            Direction::RightTop => (1, -1),
            Direction::Right => (1, 0),
            Direction::RightDown => (1, 1),
            Direction::Down => (0, 1),
        }
    }
}

impl From<Direction> for (i32, i32) {
    fn from(dir: Direction) -> (step: (i32, i32)) {
        match dir {
            Direction::LeftDown => (-1, 1),
            Direction::Left => (-1, 0),
            Direction::LeftTop => (-1, -1),
            Direction::Top => (0, -1),
            Direction::RightTop => (1, -1),
            Direction::Right => (1, 0),
            Direction::RightDown => (1, 1),
            Direction::Down => (0, 1),
        }
    }
}

impl vstd::std_specs::convert::FromSpecImpl<Direction> for (i32, i32) {
    open spec fn obeys_from_spec() -> bool {
        true
    }

    open spec fn from_spec(dir: Direction) -> (i32, i32) {
        (dir.delta().0 as i32, dir.delta().1 as i32)
    }
}

impl core::ops::Add<(i32, i32)> for Position {
    type Output = Position;

    fn add(self, rhs: (i32, i32)) -> (sum: Position) {
        Position { x: self.x + rhs.0, y: self.y + rhs.1 }
    }
}

impl vstd::std_specs::ops::AddSpecImpl<(i32, i32)> for Position {
    open spec fn obeys_add_spec() -> bool {
        true
    }

    open spec fn add_req(self, rhs: (i32, i32)) -> bool {
        self.can_shift(rhs.0 as int, rhs.1 as int)
    }

    open spec fn add_spec(self, rhs: (i32, i32)) -> Position {
        self.shifted(rhs.0 as int, rhs.1 as int)
    }
}

impl core::ops::Add<Direction> for Position {
    type Output = Position;

    fn add(self, rhs: Direction) -> (sum: Position) {
        let step: (i32, i32) = rhs.into();
        self + step
    }
}

impl vstd::std_specs::ops::AddSpecImpl<Direction> for Position {
    open spec fn obeys_add_spec() -> bool {
        true
    }

    open spec fn add_req(self, rhs: Direction) -> bool {
        self.can_shift(rhs.delta().0, rhs.delta().1)
    }

    open spec fn add_spec(self, rhs: Direction) -> Position {
        self.shifted(rhs.delta().0, rhs.delta().1)
    }
}

impl core::ops::AddAssign<Direction> for Position {
    fn add_assign(&mut self, rhs: Direction)
        requires
            old(self).can_shift(rhs.delta().0, rhs.delta().1),
        ensures
            *final(self) == old(self).shifted(rhs.delta().0, rhs.delta().1),
    {
        let step: (i32, i32) = rhs.into();
        self.x += step.0;
        self.y += step.1;
    }
}

impl Direction {
    /// Number of directions.
    pub const VARIANT_COUNT: usize = 8;

    /// The direction with the given number, counting the variants from
    /// `LeftDown` (0) around to `Down` (7).
    pub open spec fn spec_from_index(idx: int) -> Direction {
        if idx == 0 {
            Direction::LeftDown
        } else if idx == 1 {
            Direction::Left
        } else if idx == 2 {
            Direction::LeftTop
        } else if idx == 3 {
            Direction::Top
        } else if idx == 4 {
            Direction::RightTop
        } else if idx == 5 {
            Direction::Right
        } else if idx == 6 {
            Direction::RightDown
        } else {
            Direction::Down
        }
    }

    /// The number of this direction: the inverse of `spec_from_index`.
    pub open spec fn number(self) -> int {
        match self {
            Direction::LeftDown => 0,
            Direction::Left => 1,
            Direction::LeftTop => 2,
            Direction::Top => 3,
            Direction::RightTop => 4,
            Direction::Right => 5,
            Direction::RightDown => 6,
            Direction::Down => 7,
        }
    }

    /// The numbers below `VARIANT_COUNT` and the directions correspond one to
    /// one, so that a uniformly drawn number gives a uniformly drawn
    /// direction. No direction is a step of zero length.
    pub proof fn lemma_numbering(dir: Direction, idx: int)
        ensures
            0 <= dir.number() < Direction::VARIANT_COUNT,
            Direction::spec_from_index(dir.number()) == dir,
            0 <= idx < Direction::VARIANT_COUNT ==> Direction::spec_from_index(idx).number() == idx,
            dir.delta() != (0int, 0int),
            -1 <= dir.delta().0 <= 1,
            -1 <= dir.delta().1 <= 1,
    {
    }

    /// The record of the call that draws this direction: its number came
    /// back when a number below `VARIANT_COUNT` was asked for.
    pub open spec fn drawn_by(self) -> Seq<Draw> {
        seq![
            Draw::Range {
                low: 0,
                high: Direction::VARIANT_COUNT as u32,
                sample: self.number() as u32,
            },
        ]
    }

    /// The direction with the given number.
    pub fn from_index(idx: usize) -> (dir: Direction)
        requires
            idx < Direction::VARIANT_COUNT,
        ensures
            dir == Direction::spec_from_index(idx as int),
    {
        match idx {
            0 => Direction::LeftDown,
            1 => Direction::Left,
            2 => Direction::LeftTop,
            3 => Direction::Top,
            4 => Direction::RightTop,
            5 => Direction::Right,
            6 => Direction::RightDown,
            _ => Direction::Down,
        }
    }
}

impl GetRandomVariant for Direction {
    const VARIANT_COUNT: usize = Self::VARIANT_COUNT;

    /// Draws one number below `VARIANT_COUNT`; the result is the direction
    /// with that number.
    fn get_rand_variant(self, rng: &mut Prng) -> (fresh: Direction)
        ensures
            final(rng).seeded_by() == old(rng).seeded_by(),
            final(rng).draws() == old(rng).draws() + fresh.drawn_by(),
    {
        let idx = Self::gen_idx_variant(rng);
        proof {
            Direction::lemma_numbering(Direction::Down, idx as int);
        }
        Direction::from_index(idx)
    }
}

impl Mutable for Direction {
    /// Flips the mutation coin. After a hit the direction is drawn anew;
    /// otherwise it stays and nothing more is drawn.
    fn mutate(&mut self, rng: &mut Prng) -> (rerolled: bool)
        ensures
            !rerolled ==> *final(self) == *old(self),
            final(rng).seeded_by() == old(rng).seeded_by(),
            final(rng).draws() == old(rng).draws() + chance(rerolled, final(self).drawn_by()),
    {
        if is_mutated(rng) {
            *self = self.get_rand_variant(rng);
            return true;
        }
        false
    }
}

} // verus!
