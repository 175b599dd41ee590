use vstd::prelude::*;
use crate::dynamics::{Celestial, Position, Velocity};
use crate::fixed::SCALE;
use crate::renderer::Renderer;
use crate::store::Entity;
use crate::{EndZone, SpaceShip};

verus! {

/// Asset id of the starfield backdrop.
pub const SPRITE_SPACE: u32 = 0;

/// Asset id of the craft's sprite.
pub const SPRITE_SPACESHIP: u32 = 1;

/// Asset id of the home planet's sprite.
pub const SPRITE_EARTH: u32 = 2;

/// Asset id of the fuel gauge's frame.
pub const SPRITE_HUD: u32 = 3;

/// Asset id of the fuel can icon.
pub const SPRITE_CAN: u32 = 4;

/// Asset id of the on-screen control pads.
pub const SPRITE_CONTROLS: u32 = 5;

/// Asset id of the back/restart buttons.
pub const SPRITE_BACK_RESTART: u32 = 6;

/// The backdrop row: the starfield pinned behind everything.
pub open spec fn background_ent() -> Entity {
    Entity {
        position: Some(Position { x: 0, y: 0 }),
        renderer: Some(Renderer::SpriteRenderer { image: SPRITE_SPACE, z: -100i32, fixed: true }),
        ..Entity::spec_new()
    }
}

/// The backdrop: the starfield sprite, pinned to the screen behind
/// everything else.
pub fn background() -> (e: Entity)
    ensures
        e == background_ent(),
{
    let mut e = Entity::new();
    e.position = Some(Position { x: 0, y: 0 });
    e.renderer = Some(Renderer::SpriteRenderer { image: SPRITE_SPACE, z: -100, fixed: true });
    e
}

/// The craft row built from a placement, facing right with a full tank.
pub open spec fn spaceship_ent(x: i64, y: i64, vx: i64, vy: i64, fuel: i64) -> Entity {
    Entity {
        position: Some(Position { x, y }),
        velocity: Some(Velocity { x: vx, y: vy }),
        spaceship: Some(SpaceShip { heading_x: SCALE, heading_y: 0, fuel, initial_fuel: fuel }),
        renderer: Some(Renderer::SpriteRenderer { image: SPRITE_SPACESHIP, z: 0, fixed: false }),
        ..Entity::spec_new()
    }
}

/// The piloted craft at a position with a starting velocity and a full
/// tank, facing right until its first tick derives a heading.
pub fn spaceship(x: i64, y: i64, vx: i64, vy: i64, fuel: i64) -> (e: Entity)
    ensures
        e == spaceship_ent(x, y, vx, vy, fuel),
{
    let mut e = Entity::new();
    e.position = Some(Position { x, y });
    e.velocity = Some(Velocity { x: vx, y: vy });
    e.spaceship = Some(SpaceShip { heading_x: SCALE, heading_y: 0, fuel, initial_fuel: fuel });
    e.renderer = Some(Renderer::SpriteRenderer { image: SPRITE_SPACESHIP, z: 0, fixed: false });
    e
}

/// A celestial row built from a placement.
pub open spec fn planet_ent(sprite: u32, x: i64, y: i64, mass: i64, radius: i64) -> Entity {
    Entity {
        position: Some(Position { x, y }),
        celestial: Some(Celestial { mass, radius }),
        renderer: Some(Renderer::SpriteRenderer { image: sprite, z: 0, fixed: false }),
        ..Entity::spec_new()
    }
}

/// A celestial body: it attracts every mover and crashes the craft
/// within its collision radius.
pub fn planet(sprite: u32, x: i64, y: i64, mass: i64, radius: i64) -> (e: Entity)
    ensures
        e == planet_ent(sprite, x, y, mass, radius),
{
    let mut e = Entity::new();
    e.position = Some(Position { x, y });
    e.celestial = Some(Celestial { mass, radius });
    e.renderer = Some(Renderer::SpriteRenderer { image: sprite, z: 0, fixed: false });
    e
}

/// The goal row built from its center point: a translucent
/// hundred-by-hundred box.
pub open spec fn end_zone_ent(x: i64, y: i64) -> Entity {
    Entity {
        position: Some(Position { x: (x - 50 * SCALE) as i64, y: (y - 50 * SCALE) as i64 }),
        end_zone: Some(EndZone { width: 100_000_000, height: 100_000_000 }),
        renderer: Some(Renderer::RectRenderer {
            width: 100_000_000,
            height: 100_000_000,
            color: "rgba(250, 126, 55, 0.7)",
            z: 0,
            fixed: false,
        }),
        ..Entity::spec_new()
    }
}

/// The goal area centered on a point: a translucent box the craft must
/// fly well into.
pub fn end_zone(x: i64, y: i64) -> (e: Entity)
    requires
        -0x7fffffffffffffff + 50 * SCALE <= x,
        -0x7fffffffffffffff + 50 * SCALE <= y,
    ensures
        e == end_zone_ent(x, y),
{
    let mut e = Entity::new();
    e.position = Some(Position { x: x - 50 * SCALE, y: y - 50 * SCALE });
    e.end_zone = Some(EndZone { width: 100 * SCALE, height: 100 * SCALE });
    e.renderer = Some(Renderer::RectRenderer {
        width: 100 * SCALE,
        height: 100 * SCALE,
        color: "rgba(250, 126, 55, 0.7)",
        z: 0,
        fixed: false,
    });
    e
}

/// A caption row built from a label placement.
pub open spec fn text_ent(content: &'static str, color: &'static str, style: &'static str, x: i64, y: i64) -> Entity {
    Entity {
        position: Some(Position { x, y }),
        renderer: Some(Renderer::TextRenderer { text: content, color, font: style, z: 10, fixed: true }),
        ..Entity::spec_new()
    }
}

/// A caption pinned to the screen above the scene.
pub fn text(content: &'static str, color: &'static str, style: &'static str, x: i64, y: i64) -> (e: Entity)
    ensures
        e == text_ent(content, color, style, x, y),
{
    let mut e = Entity::new();
    e.position = Some(Position { x, y });
    e.renderer = Some(Renderer::TextRenderer { text: content, color, font: style, z: 10, fixed: true });
    e
}

} // verus!
