use vstd::prelude::*;
use crate::dynamics::{Mass, Position};
use crate::renderer::Renderer;
use crate::store::{Entity, World};
use crate::hud::hud_ents;
use crate::levels::common::{SPRITE_EARTH, background, background_ent, end_zone, end_zone_ent,
    spaceship, spaceship_ent};

verus! {

/// The home planet as a bare attracting mass: it pulls but, with no
/// collision radius, cannot be crashed into.
pub open spec fn mass_planet_ent() -> Entity {
    Entity {
        position: Some(Position { x: 650_000_000, y: 400_000_000 }),
        mass: Some(Mass { mass: 5_000_000 }),
        renderer: Some(Renderer::SpriteRenderer { image: SPRITE_EARTH, z: 0, fixed: false }),
        ..Entity::spec_new()
    }
}

/// Build the second level: the same crossing as the first, but harmless
/// gravity, a smaller tank, and no instructions.
pub fn world_level() -> (w: World)
    ensures
        w.ents@ == seq![
            background_ent(),
            mass_planet_ent(),
            end_zone_ent(1_100_000_000, 400_000_000),
            spaceship_ent(800_000_000, 400_000_000, 0, 300_000_000, 10_000_000),
        ] + hud_ents(),
{
    let mut world = World::new();
    world.spawn(background());
    let mut p = Entity::new();
    p.position = Some(Position { x: 650_000_000, y: 400_000_000 });
    p.mass = Some(Mass { mass: 5_000_000 });
    p.renderer = Some(Renderer::SpriteRenderer { image: SPRITE_EARTH, z: 0, fixed: false });
    world.spawn(p);
    world.spawn(end_zone(1_100_000_000, 400_000_000));
    world.spawn(spaceship(800_000_000, 400_000_000, 0, 300_000_000, 10_000_000));
    crate::hud::build_hud(&mut world);
    proof {
        assert(world.ents@ =~= seq![
            background_ent(),
            mass_planet_ent(),
            end_zone_ent(1_100_000_000, 400_000_000),
            spaceship_ent(800_000_000, 400_000_000, 0, 300_000_000, 10_000_000),
        ] + hud_ents());
    }
    world
}

} // verus!
