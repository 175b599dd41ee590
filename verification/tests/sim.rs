use orbital_bus::dynamics::{Celestial, Position, Velocity, system_crash, system_gravity};
use orbital_bus::fixed::{SCALE, fmul, isqrt};
use orbital_bus::input::{FUEL_BURN, Input, system_spacecraft_input};
use orbital_bus::levels::common::{SPRITE_EARTH, end_zone, planet, spaceship};
use orbital_bus::hud::{FuelHUD, system_hud};
use orbital_bus::input::{ClickTarget, KEY_S, KEY_W, click_target, key_update, pad_update};
use orbital_bus::renderer::{Camera, Renderer, system_offset};
use orbital_bus::store::{Entity, World};
use orbital_bus::{Finish, FinishAction, SpaceShip, next_max_level, system_finish};

const DT: i64 = 16_667;

fn mover(x: i64, y: i64, vx: i64, vy: i64) -> Entity {
    let mut e = Entity::new();
    e.position = Some(Position { x, y });
    e.velocity = Some(Velocity { x: vx, y: vy });
    e
}

fn run_state() -> Entity {
    let mut e = Entity::new();
    e.finish = Some(Finish { finish: false, crash: false });
    e
}

#[test]
fn fixed_point_products_are_exact() {
    assert_eq!(fmul(3_000_000, 2_000_000), 6_000_000);
    assert_eq!(fmul(-150_000_000, 16_667), -2_500_050);
    assert_eq!(fmul(-7, 3), 0);
    assert_eq!(fmul(1_000_000_000, 16_667), 16_667_000);
}

#[test]
fn integer_square_roots_are_exact() {
    assert_eq!(isqrt(0), 0);
    assert_eq!(isqrt(10), 3);
    assert_eq!(isqrt(25_000_000_000_000_000), 158_113_883);
    let v: u128 = 300_000_000;
    assert_eq!(isqrt(v * v), 300_000_000);
}

#[test]
fn gravity_without_attractors_is_inertia() {
    let mut w = World::new();
    w.spawn(mover(1_000_000, 2_000_000, 3_000_000, -2_000_000));
    let step_x = fmul(3_000_000, 20_000);
    let step_y = fmul(-2_000_000, 20_000);
    for n in 1..=180i64 {
        system_gravity(&mut w, 20_000);
        let e = *w.get(0);
        assert_eq!(e.velocity.unwrap(), Velocity { x: 3_000_000, y: -2_000_000 });
        assert_eq!(
            e.position.unwrap(),
            Position { x: 1_000_000 + n * step_x, y: 2_000_000 + n * step_y }
        );
    }
}

#[test]
fn single_attractor_pull_matches_formula_for_two_ticks() {
    let mut w = World::new();
    w.spawn(planet(SPRITE_EARTH, 650_000_000, 400_000_000, 5_000_000, 100_000_000));
    w.spawn(mover(800_000_000, 400_000_000, 0, 300_000_000));
    system_gravity(&mut w, DT);
    let e = *w.get(1);
    assert_eq!(e.velocity.unwrap(), Velocity { x: -12_500_250, y: 300_000_000 });
    assert_eq!(e.position.unwrap(), Position { x: 799_791_659, y: 405_000_100 });
    system_gravity(&mut w, DT);
    let e = *w.get(1);
    assert_eq!(e.velocity.unwrap(), Velocity { x: -24_983_135, y: 299_583_320 });
    assert_eq!(e.position.unwrap(), Position { x: 799_375_266, y: 409_993_255 });
}

#[test]
fn heading_follows_velocity() {
    let mut w = World::new();
    let mut e = mover(0, 0, 3_000_000, 4_000_000);
    e.spaceship = Some(SpaceShip { heading_x: SCALE, heading_y: 0, fuel: 5_000_000, initial_fuel: 5_000_000 });
    w.spawn(e);
    let inp = Input { forward: false, brake: false, click: false };
    system_spacecraft_input(&mut w, &inp, DT);
    let ship = w.get(0).spaceship.unwrap();
    assert_eq!(ship.heading_x, 600_000);
    assert_eq!(ship.heading_y, 800_000);
    assert_eq!(ship.fuel, 5_000_000);
}

#[test]
fn speed_cap_rejects_thrust_but_burns_fuel() {
    let mut w = World::new();
    let mut e = mover(0, 0, 1_000_000_000, 0);
    e.spaceship = Some(SpaceShip { heading_x: SCALE, heading_y: 0, fuel: 25_000_000, initial_fuel: 25_000_000 });
    w.spawn(e);
    let inp = Input { forward: true, brake: false, click: false };
    let burn = fmul(FUEL_BURN, DT);
    for n in 1..=50i64 {
        system_spacecraft_input(&mut w, &inp, DT);
        let e = *w.get(0);
        assert_eq!(e.velocity.unwrap(), Velocity { x: 1_000_000_000, y: 0 });
        assert_eq!(e.spaceship.unwrap().fuel, 25_000_000 - n * burn);
    }
}

#[test]
fn empty_tank_freezes_thrust_and_fuel() {
    for fuel in [0i64, -500] {
        let mut w = World::new();
        let mut e = mover(0, 0, 5_000_000, 0);
        e.spaceship = Some(SpaceShip { heading_x: SCALE, heading_y: 0, fuel, initial_fuel: 25_000_000 });
        w.spawn(e);
        let inp = Input { forward: true, brake: true, click: false };
        for _ in 0..100 {
            system_spacecraft_input(&mut w, &inp, DT);
            let e = *w.get(0);
            assert_eq!(e.velocity.unwrap(), Velocity { x: 5_000_000, y: 0 });
            assert_eq!(e.spaceship.unwrap().fuel, fuel);
        }
    }
}

#[test]
fn thrust_accelerates_along_heading() {
    let mut w = World::new();
    let mut e = mover(0, 0, 300_000_000, 0);
    e.spaceship = Some(SpaceShip { heading_x: SCALE, heading_y: 0, fuel: 25_000_000, initial_fuel: 25_000_000 });
    w.spawn(e);
    let inp = Input { forward: true, brake: false, click: false };
    system_spacecraft_input(&mut w, &inp, DT);
    let e = *w.get(0);
    // heading is (1, 0); one tick adds fmul(fmul(SPEED_INCREMENT, DT), SCALE)
    assert_eq!(e.velocity.unwrap(), Velocity { x: 316_667_000, y: 0 });
    assert_eq!(e.spaceship.unwrap().fuel, 25_000_000 - fmul(FUEL_BURN, DT));
}

#[test]
fn crash_is_detected_strictly_inside_radius() {
    // distance 100 units == radius: no crash (strict comparison)
    let mut w = World::new();
    w.spawn(planet(SPRITE_EARTH, 0, 0, 5_000_000, 100_000_000));
    let mut ship = mover(100_000_000, 0, 0, 0);
    ship.spaceship = Some(SpaceShip { heading_x: SCALE, heading_y: 0, fuel: 1_000_000, initial_fuel: 1_000_000 });
    w.spawn(ship);
    w.spawn(run_state());
    system_crash(&mut w);
    assert_eq!(w.get(2).finish.unwrap(), Finish { finish: false, crash: false });

    // one step closer: crash
    let mut w = World::new();
    w.spawn(planet(SPRITE_EARTH, 0, 0, 5_000_000, 100_000_000));
    let mut ship = mover(99_999_999, 0, 0, 0);
    ship.spaceship = Some(SpaceShip { heading_x: SCALE, heading_y: 0, fuel: 1_000_000, initial_fuel: 1_000_000 });
    w.spawn(ship);
    w.spawn(run_state());
    system_crash(&mut w);
    assert_eq!(w.get(2).finish.unwrap(), Finish { finish: false, crash: true });
}

fn overlay_texts(w: &World) -> Vec<&'static str> {
    let mut out = Vec::new();
    for e in &w.ents {
        if let Some(orbital_bus::renderer::Renderer::TextRenderer { text, .. }) = e.renderer {
            out.push(text);
        }
    }
    out
}

#[test]
fn crash_wins_over_simultaneous_zone_entry() {
    // the ship sits both inside the planet's radius and inside the zone inset
    let mut w = World::new();
    w.spawn(planet(SPRITE_EARTH, 1_100_000_000, 400_000_000, 5_000_000, 100_000_000));
    w.spawn(end_zone(1_100_000_000, 400_000_000));
    let mut ship = mover(1_100_000_000, 400_000_000, 0, 0);
    ship.spaceship = Some(SpaceShip { heading_x: SCALE, heading_y: 0, fuel: 1_000_000, initial_fuel: 1_000_000 });
    w.spawn(ship);
    w.spawn(run_state());
    system_crash(&mut w);
    let mut inp = Input { forward: false, brake: false, click: false };
    let before = w.len();
    let action = system_finish(&mut w, &mut inp);
    assert_eq!(action, FinishAction::Idle);
    assert_eq!(w.len(), before + 3);
    assert_eq!(w.get(3).finish.unwrap(), Finish { finish: true, crash: true });
    let texts = overlay_texts(&w);
    assert!(texts.contains(&"Crash..!"));
    assert!(!texts.contains(&"Success!"));
}

#[test]
fn zone_entry_spawns_the_success_overlay_once() {
    let mut w = World::new();
    w.spawn(end_zone(1_100_000_000, 400_000_000));
    let mut ship = mover(1_100_000_000, 400_000_000, 0, 0);
    ship.spaceship = Some(SpaceShip { heading_x: SCALE, heading_y: 0, fuel: 1_000_000, initial_fuel: 1_000_000 });
    w.spawn(ship);
    w.spawn(run_state());
    let mut inp = Input { forward: false, brake: false, click: true };
    let before = w.len();
    let action = system_finish(&mut w, &mut inp);
    assert_eq!(action, FinishAction::Idle);
    assert!(!inp.click, "the latching tick consumes the click");
    assert_eq!(w.len(), before + 3);
    assert_eq!(w.get(2).finish.unwrap(), Finish { finish: true, crash: false });
    assert!(overlay_texts(&w).contains(&"Success!"));
    // a thousand more passes spawn nothing further
    for _ in 0..1000 {
        let mut inp = Input { forward: false, brake: false, click: false };
        system_finish(&mut w, &mut inp);
    }
    assert_eq!(w.len(), before + 3);
}

#[test]
fn click_after_success_advances_and_after_crash_reloads() {
    let mut w = World::new();
    let mut e = Entity::new();
    e.finish = Some(Finish { finish: true, crash: false });
    w.spawn(e);
    let mut inp = Input { forward: false, brake: false, click: true };
    assert_eq!(system_finish(&mut w, &mut inp), FinishAction::Advance);
    assert!(!inp.click);

    let mut w = World::new();
    let mut e = Entity::new();
    e.finish = Some(Finish { finish: true, crash: true });
    w.spawn(e);
    let mut inp = Input { forward: false, brake: false, click: true };
    assert_eq!(system_finish(&mut w, &mut inp), FinishAction::Reload);
    assert!(!inp.click);

    // without a click nothing happens
    let mut w = World::new();
    let mut e = Entity::new();
    e.finish = Some(Finish { finish: true, crash: false });
    w.spawn(e);
    let mut inp = Input { forward: false, brake: false, click: false };
    assert_eq!(system_finish(&mut w, &mut inp), FinishAction::Idle);
}

#[test]
fn camera_clamps_to_margins() {
    // ship at the world origin: offset becomes exactly (100 - x, 100 - y) units
    let mut w = World::new();
    w.spawn(spaceship(0, 0, 0, 0, 1_000_000));
    let mut cam = Entity::new();
    cam.camera = Some(Camera { offset: Position { x: 0, y: 0 } });
    w.spawn(cam);
    system_offset(&mut w);
    assert_eq!(w.get(1).camera.unwrap().offset, Position { x: 100_000_000, y: 100_000_000 });

    // far edge: the offset saturates at the opposite bound
    let mut w = World::new();
    w.spawn(spaceship(2_000_000_000, 1_000_000_000, 0, 0, 1_000_000));
    let mut cam = Entity::new();
    cam.camera = Some(Camera { offset: Position { x: 0, y: 0 } });
    w.spawn(cam);
    system_offset(&mut w);
    assert_eq!(
        w.get(1).camera.unwrap().offset,
        Position { x: 1_260_000_000 - 2_000_000_000, y: 668_000_000 - 1_000_000_000 }
    );

    // in the visible band nothing moves
    let mut w = World::new();
    w.spawn(spaceship(600_000_000, 400_000_000, 0, 0, 1_000_000));
    let mut cam = Entity::new();
    cam.camera = Some(Camera { offset: Position { x: 0, y: 0 } });
    w.spawn(cam);
    system_offset(&mut w);
    assert_eq!(w.get(1).camera.unwrap().offset, Position { x: 0, y: 0 });
}

#[test]
fn the_fuel_bar_tracks_the_remaining_fraction() {
    let mut w = World::new();
    let mut ship = Entity::new();
    ship.spaceship = Some(SpaceShip {
        heading_x: SCALE,
        heading_y: 0,
        fuel: 12_500_000,
        initial_fuel: 25_000_000,
    });
    w.spawn(ship);
    let mut bar = Entity::new();
    bar.position = Some(Position { x: 1_252_000_000, y: 653_000_000 });
    bar.renderer = Some(Renderer::rect(77_000_000, 96_000_000, "red"));
    bar.fuel_hud = Some(FuelHUD);
    w.spawn(bar);
    system_hud(&mut w);
    // half a tank: half of the 96-unit span, slid down by the other half
    match w.get(1).renderer.unwrap() {
        Renderer::RectRenderer { height, .. } => assert_eq!(height, 48_000_000),
        _ => panic!("the bar stays a rectangle"),
    }
    assert_eq!(w.get(1).position.unwrap().y, 653_000_000 + 48_000_000);

    // an overdrawn tank shows an empty bar at the low edge
    let mut w2 = World::new();
    let mut ship2 = Entity::new();
    ship2.spaceship = Some(SpaceShip {
        heading_x: SCALE,
        heading_y: 0,
        fuel: -300,
        initial_fuel: 25_000_000,
    });
    w2.spawn(ship2);
    let mut bar2 = Entity::new();
    bar2.position = Some(Position { x: 1_252_000_000, y: 653_000_000 });
    bar2.renderer = Some(Renderer::rect(77_000_000, 96_000_000, "red"));
    bar2.fuel_hud = Some(FuelHUD);
    w2.spawn(bar2);
    system_hud(&mut w2);
    match w2.get(1).renderer.unwrap() {
        Renderer::RectRenderer { height, .. } => assert_eq!(height, 0),
        _ => panic!("the bar stays a rectangle"),
    }
    assert_eq!(w2.get(1).position.unwrap().y, 653_000_000 + 96_000_000);
}

#[test]
fn pointer_presses_resolve_by_screen_region() {
    assert_eq!(click_target(50_000_000, 100_000_000), ClickTarget::LevelSelect);
    assert_eq!(click_target(150_000_000, 100_000_000), ClickTarget::Restart);
    assert_eq!(click_target(300_000_000, 100_000_000), ClickTarget::Ignored);
    assert_eq!(click_target(50_000_000, 400_000_000), ClickTarget::Primary);
    // the bands are strict: their very edges do not count
    assert_eq!(click_target(10_000_000, 100_000_000), ClickTarget::Ignored);
}

#[test]
fn pads_and_keys_write_the_snapshot() {
    let mut inp = Input { forward: false, brake: false, click: true };
    pad_update(&mut inp, 100_000_000, 600_000_000, true);
    assert_eq!(inp, Input { forward: true, brake: false, click: true });
    pad_update(&mut inp, 100_000_000, 700_000_000, true);
    assert_eq!(inp, Input { forward: true, brake: true, click: true });
    pad_update(&mut inp, 500_000_000, 600_000_000, false);
    assert_eq!(inp, Input { forward: true, brake: true, click: true }, "off the pads nothing moves");
    key_update(&mut inp, KEY_W, false);
    key_update(&mut inp, KEY_S, false);
    assert_eq!(inp, Input { forward: false, brake: false, click: true });
    key_update(&mut inp, 65, true);
    assert_eq!(inp, Input { forward: false, brake: false, click: true });
}

#[test]
fn progress_only_advances_from_the_frontier() {
    assert_eq!(next_max_level(3, 3), 4);
    assert_eq!(next_max_level(2, 5), 5);
    assert_eq!(next_max_level(5, 2), 2);
}
