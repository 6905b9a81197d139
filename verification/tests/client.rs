use evocell::cell::Cell;
use evocell::client::{shade, square, App, Controls, EventHandler, ModRender};
use evocell::consts::{COUNT_GENES, UNIT};
use evocell::genome::{Gene, Genome};
use evocell::math::Position;
use evocell::world::World;

fn painted(energy: i64, health: i64, toxin: i64) -> Cell {
    Cell {
        family: 1,
        fixed: true,
        lifetime: 0,
        max_lifetime: 0,
        health,
        energy,
        toxin,
        color: (10, 20, 30),
        genome: Genome::from_genes([Gene::Nothing; COUNT_GENES]),
    }
}

#[test]
fn controls_start_slow_and_plain() {
    let controls = Controls::new();
    assert_eq!(controls.speed, 1);
    assert_eq!(controls.mod_render, ModRender::Default);
}

#[test]
fn letter_keys_choose_what_colours_show() {
    let mut controls = Controls::new();
    controls.press("E");
    assert_eq!(controls, Controls { speed: 1, mod_render: ModRender::Energy });
    controls.press("H");
    assert_eq!(controls, Controls { speed: 1, mod_render: ModRender::Health });
    controls.press("D");
    assert_eq!(controls, Controls { speed: 1, mod_render: ModRender::Default });
}

#[test]
fn digit_keys_set_the_speed() {
    let mut controls = Controls::new();
    controls.press("H");
    for (key, speed) in [("1", 1), ("2", 2), ("3", 4), ("4", 8), ("5", 16), ("6", 32), ("7", 64)] {
        controls.press(key);
        assert_eq!(controls, Controls { speed, mod_render: ModRender::Health });
    }
}

#[test]
fn other_keys_change_nothing() {
    let mut controls = Controls { speed: 8, mod_render: ModRender::Toxin };
    for key in ["", "T", "d", "e", "h", "0", "8", "9", "DD", "12", "Escape", "Space", "\u{44}\u{301}", "É"] {
        controls.press(key);
        assert_eq!(controls, Controls { speed: 8, mod_render: ModRender::Toxin });
    }
}

#[test]
fn shade_has_ten_levels_to_the_unit() {
    assert_eq!(shade(0), 0);
    assert_eq!(shade(UNIT), 10);
    assert_eq!(shade(10 * UNIT), 100);
    assert_eq!(shade(UNIT / 10), 1);
    assert_eq!(shade(UNIT / 10 - 1), 0);
    assert_eq!(shade(25 * UNIT + UNIT / 2), 255);
    assert_eq!(shade(25 * UNIT + UNIT / 2 - 1), 254);
    assert_eq!(shade(1000 * UNIT), 255);
    assert_eq!(shade(i64::MAX), 255);
    assert_eq!(shade(-1), 0);
    assert_eq!(shade(-5 * UNIT), 0);
    assert_eq!(shade(i64::MIN), 0);
}

#[test]
fn tint_follows_the_mode() {
    let cell = painted(10 * UNIT, 2 * UNIT, 30 * UNIT);
    let mut controls = Controls::new();
    assert_eq!(controls.tint(&cell), (10, 20, 30));
    controls.mod_render = ModRender::Energy;
    assert_eq!(controls.tint(&cell), (100, 100, 100));
    controls.mod_render = ModRender::Health;
    assert_eq!(controls.tint(&cell), (20, 20, 20));
    controls.mod_render = ModRender::Toxin;
    assert_eq!(controls.tint(&cell), (255, 255, 255));
}

#[test]
fn square_scales_the_position() {
    assert_eq!(square(Position::new(50, 100), 2), (100, 200, 2, 2));
    assert_eq!(square(Position::new(1, 359), 3), (3, 1077, 3, 3));
    assert_eq!(square(Position::new(7, 9), 0), (0, 0, 0, 0));
    assert_eq!(square(Position::new(-4, 5), 10), (-40, 50, 10, 10));
    assert_eq!(square(Position::new(3, 4), -1), (-3, -4, u32::MAX, u32::MAX));
    assert_eq!(square(Position::new(i32::MAX, i32::MIN), 1), (i32::MAX, i32::MIN, 1, 1));
}

#[test]
fn frame_runs_as_many_ticks_as_the_speed_says() {
    let mut world = World::with_seed(0);
    let pos = Position::new(10, 350);
    assert!(world.add(pos, painted(10 * UNIT, UNIT, 0)));
    let mut controls = Controls::new();
    controls.run(&mut world);
    assert_eq!(world.get(pos).unwrap().lifetime, 0);
    controls.press("3");
    controls.run(&mut world);
    assert_eq!(world.get(pos).unwrap().lifetime, 4);
    assert_eq!(world.get(pos).unwrap().genome.step(), 4);
    controls.speed = 0;
    controls.run(&mut world);
    assert_eq!(world.get(pos).unwrap().lifetime, 4);
}

struct Script {
    stop_after: u32,
    events: u32,
    updates: u32,
    renders: u32,
    log: Vec<&'static str>,
}

impl EventHandler for Script {
    fn event_handler(&mut self) -> bool {
        self.events += 1;
        self.log.push("events");
        self.events > self.stop_after
    }
}

impl App for Script {
    fn new() -> Self {
        Script { stop_after: 3, events: 0, updates: 0, renders: 0, log: Vec::new() }
    }

    fn init(self) -> Self {
        self
    }

    fn update(&mut self) {
        self.updates += 1;
        self.log.push("update");
    }

    fn render(&mut self) {
        self.renders += 1;
        self.log.push("render");
    }

    fn run(mut self) {
        while !self.frame() {}
    }
}

#[test]
fn frame_handles_events_then_updates_then_renders() {
    let mut app = Script::new().init();
    assert!(!app.frame());
    assert_eq!(app.log, vec!["events", "update", "render"]);
    assert!(!app.frame());
    assert!(!app.frame());
    assert_eq!((app.events, app.updates, app.renders), (3, 3, 3));
}

#[test]
fn frame_that_is_told_to_stop_does_nothing_else() {
    let mut app = Script::new();
    app.stop_after = 0;
    assert!(app.frame());
    assert_eq!(app.log, vec!["events"]);
    assert_eq!((app.events, app.updates, app.renders), (1, 0, 0));
    app.run();
}
