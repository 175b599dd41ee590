use orbital_bus::dynamics::Position;
use orbital_bus::input::Input;
use orbital_bus::levels::{EndSpec, LevelError, PlanetDef, PlanetPlacement, Root, SpaceShipSpec,
    TextSpec, WorldSpec, load_level};
use orbital_bus::levels::common::SPRITE_EARTH;
use orbital_bus::store::World;
use orbital_bus::{Finish, FinishAction, ZONE_INSET, tick, try_tick};

const DT: i64 = 16_667;

fn scenario_root() -> Root {
    Root {
        worlds: vec![WorldSpec {
            id: 1,
            background: false,
            planets: vec![PlanetPlacement { planet: 7, x: 650_000_000, y: 400_000_000 }],
            texts: vec![TextSpec {
                text: "hold the line",
                color: "white",
                style: "15pt Tsoonami",
                x: 470_000_000,
                y: 170_000_000,
            }],
            spaceship: SpaceShipSpec {
                x: 800_000_000,
                y: 400_000_000,
                vx: 0,
                vy: 300_000_000,
                fuel: 25_000_000,
            },
            end: EndSpec { x: 1_100_000_000, y: 400_000_000 },
        }],
        planets: vec![PlanetDef {
            id: 7,
            sprite: SPRITE_EARTH,
            radius: 100_000_000,
            mass: 5_000_000,
            fix: true,
        }],
    }
}

#[test]
fn a_sound_level_builds_every_row() {
    let w = load_level(1, &scenario_root()).unwrap();
    // backdrop off: planet + caption + craft + zone + seven HUD rows
    assert_eq!(w.ents.len(), 1 + 1 + 1 + 1 + 7);
    let p = &w.ents[0];
    assert_eq!(p.celestial.unwrap().mass, 5_000_000);
    assert_eq!(p.celestial.unwrap().radius, 100_000_000);
    assert!(p.velocity.is_none(), "a fixed planet stands still");
    let ship = &w.ents[2];
    assert_eq!(ship.position.unwrap(), Position { x: 800_000_000, y: 400_000_000 });
    assert_eq!(ship.spaceship.unwrap().fuel, 25_000_000);
    let zone = &w.ents[3];
    assert_eq!(zone.position.unwrap(), Position { x: 1_050_000_000, y: 350_000_000 });
    assert_eq!(zone.end_zone.unwrap().width, 100_000_000);
}

#[test]
fn an_orbiting_planet_gets_its_velocity() {
    let mut root = scenario_root();
    root.planets[0].fix = false;
    let w = load_level(1, &root).unwrap();
    assert_eq!(w.ents[0].velocity.unwrap().y, 400_000_000);
}

#[test]
fn an_unknown_level_yields_only_the_hud() {
    let w = load_level(99, &scenario_root()).unwrap();
    assert_eq!(w.ents.len(), 7);
}

#[test]
fn each_fault_is_fatal_with_its_own_error() {
    let mut root = scenario_root();
    root.worlds[0].planets[0].planet = 42;
    assert!(matches!(load_level(1, &root), Err(LevelError::UnknownPlanet)));

    let mut root = scenario_root();
    root.planets[0].mass = 0;
    assert!(matches!(load_level(1, &root), Err(LevelError::BadMass)));

    let mut root = scenario_root();
    root.planets[0].radius = -1;
    assert!(matches!(load_level(1, &root), Err(LevelError::BadRadius)));

    let mut root = scenario_root();
    root.worlds[0].spaceship.fuel = 0;
    assert!(matches!(load_level(1, &root), Err(LevelError::BadFuel)));

    let mut root = scenario_root();
    root.worlds[0].planets[0].x = 2_000_000_000_000;
    assert!(matches!(load_level(1, &root), Err(LevelError::OutOfRange)));

    let mut root = scenario_root();
    root.worlds[0].texts[0].y = -2_000_000_000_000;
    assert!(matches!(load_level(1, &root), Err(LevelError::OutOfRange)));

    let mut root = scenario_root();
    root.worlds[0].spaceship.vx = 2_000_000_000_000;
    assert!(matches!(load_level(1, &root), Err(LevelError::OutOfRange)));

    let mut root = scenario_root();
    root.worlds[0].end.x = 2_000_000_000_000;
    assert!(matches!(load_level(1, &root), Err(LevelError::OutOfRange)));
}

#[test]
fn the_built_in_levels_have_their_rows() {
    let w = orbital_bus::levels::level1::world_level();
    assert_eq!(w.ents.len(), 8);
    assert_eq!(w.ents[1].celestial.unwrap().mass, 5_000_000);
    assert_eq!(w.ents[7].spaceship.unwrap().initial_fuel, 25_000_000);

    let w = orbital_bus::levels::level2::world_level();
    assert_eq!(w.ents.len(), 4 + 7);
    assert_eq!(w.ents[1].mass.unwrap().mass, 5_000_000);
    assert!(w.ents[1].celestial.is_none());

    let w = orbital_bus::levels::level3::world_level();
    assert_eq!(w.ents.len(), 4);
    assert_eq!(w.ents[2].position.unwrap().x, 1_100_000_000);

    let w = orbital_bus::levels::level4::world_level();
    assert_eq!(w.ents.len(), 4);
    assert_eq!(w.ents[2].velocity.unwrap(), orbital_bus::dynamics::Velocity { x: 400_000_000, y: 0 });
}

fn run_flags(w: &World) -> Finish {
    w.ents.iter().find_map(|e| e.finish).unwrap()
}

fn ship_pos(w: &World) -> Position {
    w.ents.iter().find(|e| e.spaceship.is_some()).unwrap().position.unwrap()
}

#[test]
fn a_full_crossing_finishes_in_the_zone() {
    let mut w = load_level(1, &scenario_root()).unwrap();
    let mut input = Input { forward: true, brake: false, click: false };
    let dims = Vec::new();
    let mut latched_at: Option<(usize, Position)> = None;
    let mut count_at_latch = 0;
    for n in 0..180 {
        let out = tick(&mut w, &mut input, DT, &dims);
        assert!(out.ran);
        assert_eq!(out.action, FinishAction::Idle);
        if latched_at.is_none() && run_flags(&w).finish {
            latched_at = Some((n, ship_pos(&w)));
            count_at_latch = w.ents.len();
        }
    }
    let (tick_no, pos) = latched_at.expect("the crossing must finish within three seconds");
    assert_eq!(tick_no, 174);
    let flags = run_flags(&w);
    assert!(flags.finish && !flags.crash);
    // at the latching tick the craft sat strictly inside the inset interior
    assert!(1_050_000_000 + ZONE_INSET < pos.x && pos.x < 1_150_000_000 - ZONE_INSET);
    assert!(350_000_000 + ZONE_INSET < pos.y && pos.y < 450_000_000 - ZONE_INSET);
    assert_eq!(pos, Position { x: 1_129_649_181, y: 383_284_182 });
    // the overlay spawned exactly once
    assert_eq!(w.ents.len(), count_at_latch);
    // a thousand idle ticks later, still exactly once
    for _ in 0..1000 {
        tick(&mut w, &mut input, DT, &dims);
    }
    assert_eq!(w.ents.len(), count_at_latch);
}

#[test]
fn the_checked_tick_agrees_and_rejects_wild_stores() {
    // on a sound level the checked entry runs the same pipeline
    let mut w1 = load_level(1, &scenario_root()).unwrap();
    let mut w2 = load_level(1, &scenario_root()).unwrap();
    let mut in1 = Input { forward: true, brake: false, click: false };
    let mut in2 = in1;
    let dims = Vec::new();
    for _ in 0..60 {
        tick(&mut w1, &mut in1, DT, &dims);
        let out = try_tick(&mut w2, &mut in2, DT, &dims);
        assert!(out.is_some());
    }
    assert_eq!(ship_pos(&w1), ship_pos(&w2));
    assert_eq!(in1, in2);

    // a store outside the simulation's range is refused untouched
    let mut w = World::new();
    let mut e = orbital_bus::store::Entity::new();
    e.position = Some(Position { x: 0, y: 0 });
    e.velocity = Some(orbital_bus::dynamics::Velocity { x: 2_000_000_000_000, y: 0 });
    w.spawn(e);
    let mut inp = Input { forward: false, brake: false, click: false };
    assert!(try_tick(&mut w, &mut inp, DT, &dims).is_none());
    assert_eq!(w.ents[0].velocity.unwrap().x, 2_000_000_000_000);
}

#[test]
fn an_oversized_tick_freezes_the_world() {
    let mut w = load_level(1, &scenario_root()).unwrap();
    let before: Vec<Option<Position>> = w.ents.iter().map(|e| e.position).collect();
    let mut input = Input { forward: true, brake: false, click: true };
    let out = tick(&mut w, &mut input, 100_000, &Vec::new());
    assert!(!out.ran);
    assert_eq!(out.action, FinishAction::Idle);
    assert!(out.frame.cmds.is_empty());
    let after: Vec<Option<Position>> = w.ents.iter().map(|e| e.position).collect();
    assert_eq!(before, after);
    assert!(input.click, "a skipped tick reads no input");
}
