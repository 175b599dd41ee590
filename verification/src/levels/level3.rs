use vstd::prelude::*;
use crate::store::World;
use crate::levels::common::{SPRITE_EARTH, background, background_ent, end_zone, end_zone_ent,
    planet, planet_ent, spaceship, spaceship_ent};

verus! {

/// Build the third level: the first crossing reversed — start on the
/// far side and swing back around the home planet.
pub fn world_level() -> (w: World)
    ensures
        w.ents@ == seq![
            background_ent(),
            planet_ent(SPRITE_EARTH, 650_000_000, 400_000_000, 5_000_000, 100_000_000),
            spaceship_ent(1_100_000_000, 400_000_000, 0, 300_000_000, 12_000_000),
            end_zone_ent(800_000_000, 400_000_000),
        ],
{
    let mut world = World::new();
    world.spawn(background());
    world.spawn(planet(SPRITE_EARTH, 650_000_000, 400_000_000, 5_000_000, 100_000_000));
    world.spawn(spaceship(1_100_000_000, 400_000_000, 0, 300_000_000, 12_000_000));
    world.spawn(end_zone(800_000_000, 400_000_000));
    proof {
        assert(world.ents@ =~= seq![
            background_ent(),
            planet_ent(SPRITE_EARTH, 650_000_000, 400_000_000, 5_000_000, 100_000_000),
            spaceship_ent(1_100_000_000, 400_000_000, 0, 300_000_000, 12_000_000),
            end_zone_ent(800_000_000, 400_000_000),
        ]);
    }
    world
}

} // verus!
