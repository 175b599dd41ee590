use vstd::prelude::*;
use crate::store::World;
use crate::levels::common::{SPRITE_EARTH, background, background_ent, end_zone, end_zone_ent,
    planet, planet_ent, spaceship, spaceship_ent, text, text_ent};

verus! {

/// Build the introductory level: the home planet, the goal box to its
/// right, four lines of instructions, and the craft on a slow upward
/// pass between them.
pub fn world_level() -> (w: World)
    ensures
        w.ents@ == seq![
            background_ent(),
            planet_ent(SPRITE_EARTH, 650_000_000, 400_000_000, 5_000_000, 100_000_000),
            end_zone_ent(1_100_000_000, 400_000_000),
            text_ent("Welcome to Orbital Bus", "white", "20pt Tsoonami", 480_000_000, 100_000_000),
            text_ent(
                "The objective is simple. Try to go to the square zone",
                "white",
                "15pt Tsoonami",
                370_000_000,
                130_000_000,
            ),
            text_ent(
                "Use the keys (W,S) or the on-screen buttons to accelerate and brake",
                "white",
                "15pt Tsoonami",
                280_000_000,
                150_000_000,
            ),
            text_ent("Be careful! You have limited fuel", "white", "15pt Tsoonami", 470_000_000, 170_000_000),
            spaceship_ent(800_000_000, 400_000_000, 0, 300_000_000, 25_000_000),
        ],
{
    let mut world = World::new();
    world.spawn(background());
    world.spawn(planet(SPRITE_EARTH, 650_000_000, 400_000_000, 5_000_000, 100_000_000));
    world.spawn(end_zone(1_100_000_000, 400_000_000));
    world.spawn(text("Welcome to Orbital Bus", "white", "20pt Tsoonami", 480_000_000, 100_000_000));
    world.spawn(text(
        "The objective is simple. Try to go to the square zone",
        "white",
        "15pt Tsoonami",
        370_000_000,
        130_000_000,
    ));
    world.spawn(text(
        "Use the keys (W,S) or the on-screen buttons to accelerate and brake",
        "white",
        "15pt Tsoonami",
        280_000_000,
        150_000_000,
    ));
    world.spawn(text("Be careful! You have limited fuel", "white", "15pt Tsoonami", 470_000_000, 170_000_000));
    world.spawn(spaceship(800_000_000, 400_000_000, 0, 300_000_000, 25_000_000));
    proof {
        assert(world.ents@ =~= seq![
            background_ent(),
            planet_ent(SPRITE_EARTH, 650_000_000, 400_000_000, 5_000_000, 100_000_000),
            end_zone_ent(1_100_000_000, 400_000_000),
            text_ent("Welcome to Orbital Bus", "white", "20pt Tsoonami", 480_000_000, 100_000_000),
            text_ent(
                "The objective is simple. Try to go to the square zone",
                "white",
                "15pt Tsoonami",
                370_000_000,
                130_000_000,
            ),
            text_ent(
                "Use the keys (W,S) or the on-screen buttons to accelerate and brake",
                "white",
                "15pt Tsoonami",
                280_000_000,
                150_000_000,
            ),
            text_ent("Be careful! You have limited fuel", "white", "15pt Tsoonami", 470_000_000, 170_000_000),
            spaceship_ent(800_000_000, 400_000_000, 0, 300_000_000, 25_000_000),
        ]);
    }
    world
}

} // verus!
