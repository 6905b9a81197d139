//! What a front end decides before it draws: what a key press changes, which
//! colour a cell gets, where its square goes, and how many ticks a frame
//! runs.

use crate::amount::{divide, quotient};
use crate::cell::Cell;
use crate::consts::UNIT;
use crate::math::Position;
use crate::world::{survivors, ticked, World, SLOTS};
use vstd::prelude::*;
use vstd::string::StringSliceAdditionalSpecFns;

verus! {

/// What tells a front end when to stop.
pub trait EventHandler {
    /// Whether handling the pending events can take the front end from
    /// `self` to `after` with the answer `stop`. A front end says for itself
    /// what its handling of events does; one that says nothing promises
    /// nothing.
    open spec fn handled(&self, after: &Self, stop: bool) -> bool {
        true
    }

    /// Handles the pending events; `true` stops the main loop.
    fn event_handler(&mut self) -> (stop: bool)
        ensures
            old(self).handled(final(self), stop),
    ;
}

/// A front end: it sets itself up, then handles events, advances the
/// simulation and draws, frame after frame.
pub trait App: EventHandler + Sized {
    /// Whether advancing the simulation by the ticks of one frame can take
    /// the front end from `self` to `after`. A front end says for itself
    /// what its advancing does; one that says nothing promises nothing.
    open spec fn advanced(&self, after: &Self) -> bool {
        true
    }

    /// Whether drawing the world can take the front end from `self` to
    /// `after`. A front end says for itself what its drawing does; one that
    /// says nothing promises nothing.
    open spec fn drawn(&self, after: &Self) -> bool {
        true
    }

    /// A front end that has not yet opened anything.
    fn new() -> Self;

    /// Opens what the front end draws on and seeds the world.
    fn init(self) -> Self;

    /// Advances the simulation by the ticks of one frame.
    fn update(&mut self)
        ensures
            old(self).advanced(final(self)),
    ;

    /// Draws the world.
    fn render(&mut self)
        ensures
            old(self).drawn(final(self)),
    ;

    /// Runs frames until one asks to stop.
    fn run(self);

    /// Runs one frame: handles the pending events and, unless they ask to
    /// stop, advances the simulation and then draws it. `true` stops the
    /// main loop; nothing is advanced or drawn in a frame that stops it.
    fn frame(&mut self) -> (stop: bool)
        ensures
            stop ==> old(self).handled(final(self), true),
            !stop ==> exists|heard: Self, moved: Self|
                {
                    &&& #[trigger] old(self).handled(&heard, false)
                    &&& #[trigger] heard.advanced(&moved)
                    &&& moved.drawn(final(self))
                },
    {
        if self.event_handler() {
            return true;
        }
        let ghost heard = *self;
        self.update();
        let ghost moved = *self;
        self.render();
        assert(old(self).handled(&heard, false) && heard.advanced(&moved) && moved.drawn(&*self));
        false
    }
}

/// What the colour of a cell shows.
#[derive(Debug, Clone, Copy, PartialEq, Eq, Structural)]
pub enum ModRender {
    /// The cell's own colour.
    Default,
    Energy,
    Toxin,
    Health,
}

/// What the keyboard controls.
#[derive(Debug, Clone, Copy, PartialEq, Eq, Structural)]
pub struct Controls {
    /// Ticks per frame.
    pub speed: usize,
    pub mod_render: ModRender,
}

/// The grey level that shows an amount: ten levels to the unit, from 0 up
/// to 255 at most.
pub open spec fn spec_shade(amount: int) -> int {
    let level = quotient(amount * 10, UNIT as int);
    if level < 0 {
        0
    } else if level > 255 {
        255
    } else {
        level
    }
}

/// The grey level that shows an amount.
pub fn shade(amount: i64) -> (level: u8)
    ensures
        level == spec_shade(amount as int),
{
    let level = divide(amount as i128 * 10, UNIT as i128);
    if level < 0 {
        0
    } else if level > 255 {
        255
    } else {
        level as u8
    }
}

/// Whether the world can get from the first pair of grids to the second in
/// `count` ticks.
pub open spec fn ticks_run(
    grid: Map<Position, Cell>,
    next: Map<Position, Cell>,
    count: nat,
    end_grid: Map<Position, Cell>,
    end_next: Map<Position, Cell>,
) -> bool
    decreases count,
{
    if count == 0 {
        end_grid == grid && end_next == next
    } else {
        &&& end_next == Map::<Position, Cell>::empty()
        &&& exists|mid_grid: Map<Position, Cell>, mid_next: Map<Position, Cell>, end: Map<Position, Cell>|
            {
                &&& ticks_run(grid, next, (count - 1) as nat, mid_grid, mid_next)
                &&& #[trigger] ticked(mid_grid, mid_next, SLOTS as int, end)
                &&& end_grid == survivors(end)
            }
    }
}

impl Controls {
    /// The controls after a press of the key with the given name. `D`, `E`
    /// and `H` choose what the colours show: the cell's own colour, its
    /// energy or its health. `1` to `7` set the speed to 1, 2, 4, 8, 16, 32
    /// or 64 ticks per frame. Any other key changes nothing.
    pub open spec fn after_key(self, name: Seq<u8>) -> Controls {
        if name.len() != 1 {
            self
        } else if name[0] == 0x44 {
            Controls { mod_render: ModRender::Default, ..self }
        } else if name[0] == 0x45 {
            Controls { mod_render: ModRender::Energy, ..self }
        } else if name[0] == 0x48 {
            Controls { mod_render: ModRender::Health, ..self }
        } else if name[0] == 0x31 {
            Controls { speed: 1, ..self }
        } else if name[0] == 0x32 {
            Controls { speed: 2, ..self }
        } else if name[0] == 0x33 {
            Controls { speed: 4, ..self }
        } else if name[0] == 0x34 {
            Controls { speed: 8, ..self }
        } else if name[0] == 0x35 {
            Controls { speed: 16, ..self }
        } else if name[0] == 0x36 {
            Controls { speed: 32, ..self }
        } else if name[0] == 0x37 {
            Controls { speed: 64, ..self }
        } else {
            self
        }
    }

    /// The colour that a cell is drawn in.
    pub open spec fn spec_tint(self, cell: Cell) -> (u8, u8, u8) {
        match self.mod_render {
            ModRender::Default => cell.color,
            ModRender::Energy => {
                let level = spec_shade(cell.energy as int) as u8;
                (level, level, level)
            },
            ModRender::Toxin => {
                let level = spec_shade(cell.toxin as int) as u8;
                (level, level, level)
            },
            ModRender::Health => {
                let level = spec_shade(cell.health as int) as u8;
                (level, level, level)
            },
        }
    }

    /// One tick per frame, cells in their own colours.
    pub fn new() -> (controls: Controls)
        ensures
            controls == (Controls { speed: 1, mod_render: ModRender::Default }),
    {
        Controls { speed: 1, mod_render: ModRender::Default }
    }

    /// Takes a press of the key with the given name.
    pub fn press(&mut self, name: &str)
        ensures
            *final(self) == old(self).after_key(name.spec_bytes()),
    {
        let bytes = name.as_bytes();
        if bytes.len() != 1 {
            return ;
        }
        let key = bytes[0];
        if key == 0x44 {
            self.mod_render = ModRender::Default;
        } else if key == 0x45 {
            self.mod_render = ModRender::Energy;
        } else if key == 0x48 {
            self.mod_render = ModRender::Health;
        } else if key == 0x31 {
            self.speed = 1;
        } else if key == 0x32 {
            self.speed = 2;
        } else if key == 0x33 {
            self.speed = 4;
        } else if key == 0x34 {
            self.speed = 8;
        } else if key == 0x35 {
            self.speed = 16;
        } else if key == 0x36 {
            self.speed = 32;
        } else if key == 0x37 {
            self.speed = 64;
        }
    }

    /// The colour that `cell` is drawn in.
    pub fn tint(&self, cell: &Cell) -> (color: (u8, u8, u8))
        ensures
            color == self.spec_tint(*cell),
    {
        match self.mod_render {
            ModRender::Default => cell.color,
            ModRender::Energy => {
                let level = shade(cell.energy);
                (level, level, level)
            },
            ModRender::Toxin => {
                let level = shade(cell.toxin);
                (level, level, level)
            },
            ModRender::Health => {
                let level = shade(cell.health);
                (level, level, level)
            },
        }
    }

    /// Runs the ticks of one frame.
    pub fn run(&self, world: &mut World)
        requires
            old(world).wf(),
        ensures
            final(world).wf(),
            final(world).generator().seeded_by() == old(world).generator().seeded_by(),
            ticks_run(
                old(world).grid(),
                old(world).next_grid(),
                self.speed as nat,
                final(world).grid(),
                final(world).next_grid(),
            ),
    {
        let ghost grid = world.grid();
        let ghost next = world.next_grid();
        let mut done: usize = 0;
        while done < self.speed
            invariant
                done <= self.speed,
                world.wf(),
                world.generator().seeded_by() == old(world).generator().seeded_by(),
                ticks_run(grid, next, done as nat, world.grid(), world.next_grid()),
            decreases self.speed - done,
        {
            let ghost mid_grid = world.grid();
            let ghost mid_next = world.next_grid();
            world.update();
            proof {
                let end = choose|end: Map<Position, Cell>| #[trigger]
                    ticked(mid_grid, mid_next, SLOTS as int, end) && world.grid() == survivors(end);
                assert(ticks_run(grid, next, ((done + 1) - 1) as nat, mid_grid, mid_next));
            }
            done += 1;
        }
    }
}

/// The square that shows the cell at `pos` when a position is `scale` pixels
/// wide: its left edge, its top edge, its width and its height. The width
/// and the height are `scale` read as an unsigned number.
pub fn square(pos: Position, scale: i32) -> (rect: (i32, i32, u32, u32))
    requires
        i32::MIN <= pos.x * scale <= i32::MAX,
        i32::MIN <= pos.y * scale <= i32::MAX,
    ensures
        rect.0 == pos.x * scale,
        rect.1 == pos.y * scale,
        rect.2 == scale as u32,
        rect.3 == scale as u32,
{
    let side: u32 = #[verifier::truncate]
    (scale as u32);
    (pos.x() * scale, pos.y() * scale, side, side)
}

} // verus!
