use orbital_bus::dynamics::Position;
use orbital_bus::renderer::{Camera, Renderer, SpriteDim, system_renderer};
use orbital_bus::store::{Entity, World};
use orbital_bus::levels::common::SPRITE_EARTH;

fn visual(width: i64, z: i32, x: i64, y: i64) -> Entity {
    let mut e = Entity::new();
    e.position = Some(Position { x, y });
    let mut r = Renderer::rect(width, 10_000_000, "grey");
    r.set_z(z);
    e.renderer = Some(r);
    e
}

fn camera_at(x: i64, y: i64) -> Entity {
    let mut e = Entity::new();
    e.camera = Some(Camera { offset: Position { x, y } });
    e
}

fn widths(out: &[orbital_bus::renderer::DrawCmd]) -> Vec<i64> {
    out.iter()
        .map(|c| match c.shape {
            Renderer::RectRenderer { width, .. } => width,
            _ => -1,
        })
        .collect()
}

#[test]
fn draw_order_is_stable_ascending_depth() {
    let mut w = World::new();
    w.spawn(camera_at(0, 0));
    w.spawn(visual(1_000_000, 5, 0, 0)); // A
    w.spawn(visual(2_000_000, -1, 0, 0)); // B
    w.spawn(visual(3_000_000, 5, 0, 0)); // C
    let out = system_renderer(&w, &Vec::new());
    assert_eq!(widths(&out.cmds), vec![2_000_000, 1_000_000, 3_000_000]); // B, A, C
}

#[test]
fn fixed_visuals_ignore_the_camera() {
    let mut w = World::new();
    w.spawn(camera_at(7_000_000, -3_000_000));
    let mut pinned = visual(1_000_000, 0, 50_000_000, 60_000_000);
    if let Some(r) = pinned.renderer.as_mut() {
        r.set_fixed(true);
    }
    w.spawn(pinned);
    w.spawn(visual(2_000_000, 0, 50_000_000, 60_000_000));
    let out = system_renderer(&w, &Vec::new());
    assert_eq!(out.cmds.len(), 2);
    assert_eq!((out.cmds[0].x, out.cmds[0].y), (50_000_000, 60_000_000));
    assert_eq!((out.cmds[1].x, out.cmds[1].y), (57_000_000, 57_000_000));
}

#[test]
fn world_sprites_are_centered_through_their_dimensions() {
    let mut w = World::new();
    w.spawn(camera_at(0, 0));
    let mut e = Entity::new();
    e.position = Some(Position { x: 650_000_000, y: 400_000_000 });
    e.renderer = Some(Renderer::sprite(SPRITE_EARTH));
    w.spawn(e);
    let dims = vec![SpriteDim { image: SPRITE_EARTH, width: 200, height: 100 }];
    let out = system_renderer(&w, &dims);
    assert_eq!(out.cmds.len(), 1);
    assert_eq!((out.cmds[0].x, out.cmds[0].y), (550_000_000, 350_000_000));
    assert!(out.missing.is_empty());
}

#[test]
fn unresolved_sprites_are_reported_not_painted() {
    let mut w = World::new();
    w.spawn(camera_at(0, 0));
    let mut e = Entity::new();
    e.position = Some(Position { x: 0, y: 0 });
    e.renderer = Some(Renderer::sprite(SPRITE_EARTH));
    w.spawn(e);
    let out = system_renderer(&w, &Vec::new());
    assert!(out.cmds.is_empty());
    assert_eq!(out.missing, vec![SPRITE_EARTH]);
}

#[test]
fn the_craft_is_painted_last_with_its_heading() {
    let mut w = World::new();
    w.spawn(camera_at(10_000_000, 20_000_000));
    w.spawn(orbital_bus::levels::common::spaceship(100_000_000, 200_000_000, 0, 0, 1_000_000));
    w.spawn(visual(1_000_000, 99, 0, 0));
    let out = system_renderer(&w, &Vec::new());
    assert_eq!(out.cmds.len(), 1, "the craft is excluded from the ordinary pass");
    assert_eq!(out.ships.len(), 1);
    assert_eq!((out.ships[0].x, out.ships[0].y), (110_000_000, 220_000_000));
    assert_eq!((out.ships[0].heading_x, out.ships[0].heading_y), (1_000_000, 0));
}

#[test]
fn without_a_camera_nothing_is_painted() {
    let mut w = World::new();
    w.spawn(visual(1_000_000, 0, 0, 0));
    let out = system_renderer(&w, &Vec::new());
    assert!(out.cmds.is_empty() && out.ships.is_empty() && out.missing.is_empty());
}

#[test]
fn depth_accessors_round_trip() {
    let mut r = Renderer::circle(5_000_000, "red");
    assert_eq!(r.get_z(), 0);
    assert!(!r.is_fixed());
    r.set_z(7);
    r.set_fixed(true);
    assert_eq!(r.get_z(), 7);
    assert!(r.is_fixed());
}
