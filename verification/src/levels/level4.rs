use vstd::prelude::*;
use crate::store::World;
use crate::levels::common::{SPRITE_EARTH, background, background_ent, end_zone, end_zone_ent,
    planet, planet_ent, spaceship, spaceship_ent};

verus! {

/// Build the fourth level: launch from below the home planet and ride
/// its pull out to a distant goal.
pub fn world_level() -> (w: World)
    ensures
        w.ents@ == seq![
            background_ent(),
            planet_ent(SPRITE_EARTH, 650_000_000, 400_000_000, 5_000_000, 100_000_000),
            spaceship_ent(650_000_000, 700_000_000, 400_000_000, 0, 15_000_000),
            end_zone_ent(1_200_000_000, 400_000_000),
        ],
{
    let mut world = World::new();
    world.spawn(background());
    world.spawn(planet(SPRITE_EARTH, 650_000_000, 400_000_000, 5_000_000, 100_000_000));
    world.spawn(spaceship(650_000_000, 700_000_000, 400_000_000, 0, 15_000_000));
    world.spawn(end_zone(1_200_000_000, 400_000_000));
    proof {
        assert(world.ents@ =~= seq![
            background_ent(),
            planet_ent(SPRITE_EARTH, 650_000_000, 400_000_000, 5_000_000, 100_000_000),
            spaceship_ent(650_000_000, 700_000_000, 400_000_000, 0, 15_000_000),
            end_zone_ent(1_200_000_000, 400_000_000),
        ]);
    }
    world
}

} // verus!
