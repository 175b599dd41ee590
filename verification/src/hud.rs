use vstd::prelude::*;
use vstd::arithmetic::div_mod::{lemma_div_is_ordered, lemma_div_multiples_vanish};
use crate::dynamics::Position;
use crate::fixed::{SCALE, div_trunc, div_trunc_i128};
use crate::renderer::Renderer;
use crate::store::{Entity, World, all_in_bounds, first_matching,
    lemma_first_matching_found, lemma_first_matching_none};

verus! {

/// Marker for the rectangle whose height shows the remaining fuel.
#[derive(Clone, Copy, PartialEq, Eq, Structural, Debug)]
pub struct FuelHUD;

/// Screen y of a full fuel bar's top edge.
pub const HUD_BAR_TOP: i64 = 653_000_000;

/// Height of a full fuel bar.
pub const HUD_BAR_SPAN: i64 = 96_000_000;

/// The rows the fuel bar reads: any piloted craft.
pub open spec fn fueled_ship() -> spec_fn(Entity) -> bool {
    |e: Entity| e.spaceship is Some
}

/// Height of the fuel bar: the full span scaled by the fuel fraction
/// left, and never negative.
pub open spec fn fuel_bar_height(fuel: int, initial: int) -> int {
    let h = div_trunc(fuel * 96 * SCALE, initial);
    if h < 0 {
        0
    } else {
        h
    }
}

/// Row `i` after the HUD pass: fuel-bar rectangles take the height of the
/// first craft's remaining fuel and slide down by what is missing; every
/// other row is untouched.
pub open spec fn hud_upd(s: Seq<Entity>, i: int) -> Entity {
    let f = first_matching(s, fueled_ship());
    if f >= 0 && s[i].fuel_hud is Some && s[i].position is Some {
        match s[i].renderer {
            Some(Renderer::RectRenderer { width, height, color, z, fixed }) => {
                let ship = s[f].spaceship->Some_0;
                let h = fuel_bar_height(ship.fuel as int, ship.initial_fuel as int);
                Entity {
                    renderer: Some(Renderer::RectRenderer {
                        width,
                        height: h as i64,
                        color,
                        z,
                        fixed,
                    }),
                    position: Some(Position {
                        x: s[i].position->Some_0.x,
                        y: (HUD_BAR_TOP + (HUD_BAR_SPAN - h)) as i64,
                    }),
                    ..s[i]
                }
            },
            _ => s[i],
        }
    } else {
        s[i]
    }
}

/// The whole store after one HUD pass.
pub open spec fn hud_upd_world(s: Seq<Entity>) -> Seq<Entity> {
    Seq::new(s.len(), |i: int| hud_upd(s, i))
}

/// The HUD pass only resizes the fuel bar within its frame, so it keeps
/// every row in range.
pub proof fn lemma_hud_upd_in_bounds(s: Seq<Entity>)
    requires
        all_in_bounds(s),
    ensures
        all_in_bounds(hud_upd_world(s)),
{
    assert forall|i: int| 0 <= i < hud_upd_world(s).len() implies
        (#[trigger] hud_upd_world(s)[i]).in_bounds() by {
        assert(s[i].in_bounds());
        let f = first_matching(s, fueled_ship());
        if f >= 0 {
            crate::store::lemma_first_matching_is_first(s, fueled_ship());
            assert(s[f].in_bounds());
            let ship = s[f].spaceship->Some_0;
            lemma_fuel_bar_height_range(ship.fuel as int, ship.initial_fuel as int);
        }
    }
}

/// The bar height lies between empty and the full span whenever the fuel
/// does not exceed the capacity.
pub proof fn lemma_fuel_bar_height_range(fuel: int, initial: int)
    requires
        0 < initial,
        fuel <= initial,
    ensures
        0 <= fuel_bar_height(fuel, initial) <= 96 * SCALE,
{
    assert(fuel * 96 * SCALE <= initial * (96 * SCALE)) by (nonlinear_arith)
        requires fuel <= initial && SCALE == 1_000_000,
    ;
    if fuel * 96 * SCALE >= 0 {
        lemma_div_is_ordered(fuel * 96 * SCALE, initial * (96 * SCALE), initial);
        lemma_div_multiples_vanish(96 * SCALE as int, initial);
    }
}

/// The seven rows every level ends with: the fuel gauge (frame, can
/// icon, red bar), the control pads, the back/restart buttons, the
/// camera singleton and the run-state singleton.
pub open spec fn hud_ents() -> Seq<Entity> {
    seq![
        Entity {
            position: Some(Position { x: 1_230_000_000, y: 630_000_000 }),
            renderer: Some(Renderer::SpriteRenderer {
                image: crate::levels::common::SPRITE_HUD,
                z: 8,
                fixed: true,
            }),
            ..Entity::spec_new()
        },
        Entity {
            position: Some(Position { x: 1_250_000_000, y: 650_000_000 }),
            renderer: Some(Renderer::SpriteRenderer {
                image: crate::levels::common::SPRITE_CAN,
                z: 10,
                fixed: true,
            }),
            ..Entity::spec_new()
        },
        Entity {
            position: Some(Position { x: 1_252_000_000, y: 653_000_000 }),
            renderer: Some(Renderer::RectRenderer {
                width: 77_000_000,
                height: 96_000_000,
                color: "red",
                z: 9,
                fixed: true,
            }),
            fuel_hud: Some(FuelHUD),
            ..Entity::spec_new()
        },
        Entity {
            position: Some(Position { x: 10_000_000, y: 500_000_000 }),
            renderer: Some(Renderer::SpriteRenderer {
                image: crate::levels::common::SPRITE_CONTROLS,
                z: 10,
                fixed: true,
            }),
            ..Entity::spec_new()
        },
        Entity {
            position: Some(Position { x: 10_000_000, y: 10_000_000 }),
            renderer: Some(Renderer::SpriteRenderer {
                image: crate::levels::common::SPRITE_BACK_RESTART,
                z: 10,
                fixed: true,
            }),
            ..Entity::spec_new()
        },
        Entity {
            camera: Some(crate::renderer::Camera { offset: Position { x: 0, y: 0 } }),
            ..Entity::spec_new()
        },
        Entity {
            finish: Some(crate::Finish { finish: false, crash: false }),
            ..Entity::spec_new()
        },
    ]
}

/// Furnish a freshly built level with its HUD, camera and run state.
pub fn build_hud(world: &mut World)
    ensures
        final(world).ents@ == old(world).ents@ + hud_ents(),
{
    let mut frame = Entity::new();
    frame.position = Some(Position { x: 1_230_000_000, y: 630_000_000 });
    frame.renderer = Some(Renderer::SpriteRenderer {
        image: crate::levels::common::SPRITE_HUD,
        z: 8,
        fixed: true,
    });
    world.spawn(frame);

    let mut can = Entity::new();
    can.position = Some(Position { x: 1_250_000_000, y: 650_000_000 });
    can.renderer = Some(Renderer::SpriteRenderer {
        image: crate::levels::common::SPRITE_CAN,
        z: 10,
        fixed: true,
    });
    world.spawn(can);

    let mut bar = Entity::new();
    bar.position = Some(Position { x: 1_252_000_000, y: 653_000_000 });
    bar.renderer = Some(Renderer::RectRenderer {
        width: 77_000_000,
        height: 96_000_000,
        color: "red",
        z: 9,
        fixed: true,
    });
    bar.fuel_hud = Some(FuelHUD);
    world.spawn(bar);

    let mut controls = Entity::new();
    controls.position = Some(Position { x: 10_000_000, y: 500_000_000 });
    controls.renderer = Some(Renderer::SpriteRenderer {
        image: crate::levels::common::SPRITE_CONTROLS,
        z: 10,
        fixed: true,
    });
    world.spawn(controls);

    let mut nav = Entity::new();
    nav.position = Some(Position { x: 10_000_000, y: 10_000_000 });
    nav.renderer = Some(Renderer::SpriteRenderer {
        image: crate::levels::common::SPRITE_BACK_RESTART,
        z: 10,
        fixed: true,
    });
    world.spawn(nav);

    let mut cam = Entity::new();
    cam.camera = Some(crate::renderer::Camera { offset: Position { x: 0, y: 0 } });
    world.spawn(cam);

    let mut run = Entity::new();
    run.finish = Some(crate::Finish { finish: false, crash: false });
    world.spawn(run);

    proof {
        assert(final(world).ents@ =~= old(world).ents@ + hud_ents());
    }
}

/// Resize every fuel-bar rectangle to the first craft's remaining fuel,
/// anchored so the bar empties downward.
pub fn system_hud(world: &mut World)
    requires
        all_in_bounds(old(world).ents@),
    ensures
        final(world).ents@.len() == old(world).ents@.len(),
        forall|i: int| 0 <= i < old(world).ents@.len() ==>
            final(world).ents@[i] == hud_upd(old(world).ents@, i),
{
    let ghost s0 = world.ents@;
    let n = world.ents.len();

    let mut found = false;
    let mut fuel: i64 = 0;
    let mut initial: i64 = 1;
    let mut i: usize = 0;
    while i < n
        invariant
            i <= n == s0.len(),
            world.ents@ == s0,
            all_in_bounds(s0),
            !found ==> forall|k: int| 0 <= k < i ==> !(fueled_ship())(#[trigger] s0[k]),
            found ==> {
                &&& first_matching(s0, fueled_ship()) >= 0
                &&& fuel == s0[first_matching(s0, fueled_ship())].spaceship->Some_0.fuel
                &&& initial == s0[first_matching(s0, fueled_ship())].spaceship->Some_0.initial_fuel
            },
        decreases n - i,
    {
        if !found {
            let e = &world.ents[i];
            if let Some(ship) = e.spaceship {
                fuel = ship.fuel;
                initial = ship.initial_fuel;
                found = true;
                proof {
                    lemma_first_matching_found(s0, fueled_ship(), i as int);
                }
            }
        }
        i += 1;
    }
    if !found {
        proof {
            lemma_first_matching_none(s0, fueled_ship());
        }
        return;
    }

    let ghost f = first_matching(s0, fueled_ship());
    proof {
        crate::store::lemma_first_matching_is_first(s0, fueled_ship());
        assert(s0[f].in_bounds());
        assert((fuel as i128) * 96_000_000 <= 96_000_000_000_000_000_000
            && (fuel as i128) * 96_000_000 >= -96_000_000_000_000_000_000) by (nonlinear_arith)
            requires -1_000_000_000_000 <= fuel as i128 <= 1_000_000_000_000,
        ;
        lemma_fuel_bar_height_range(fuel as int, initial as int);
    }
    let num: i128 = (fuel as i128) * 96_000_000;
    let q: i128 = div_trunc_i128(num, initial as i128);
    let h: i64 = if q < 0 {
        0
    } else {
        q as i64
    };
    proof {
        assert(fuel as int * 96 * SCALE == num as int) by (nonlinear_arith)
            requires num == fuel as i128 * 96_000_000 && SCALE == 1_000_000,
        ;
        assert(h == fuel_bar_height(fuel as int, initial as int));
    }

    let mut k: usize = 0;
    while k < n
        invariant
            k <= n == s0.len(),
            world.ents@.len() == s0.len(),
            f == first_matching(s0, fueled_ship()),
            f >= 0,
            fuel == s0[f].spaceship->Some_0.fuel,
            initial == s0[f].spaceship->Some_0.initial_fuel,
            h == fuel_bar_height(fuel as int, initial as int),
            0 <= h <= 96_000_000,
            forall|q2: int| 0 <= q2 < k ==> world.ents@[q2] == hud_upd(s0, q2),
            forall|q2: int| k <= q2 < n ==> world.ents@[q2] == s0[q2],
        decreases n - k,
    {
        let e: Entity = world.ents[k];
        if e.fuel_hud.is_some() && e.position.is_some() {
            if let Some(Renderer::RectRenderer { width, height: _, color, z, fixed }) = e.renderer {
                let pos = e.position.unwrap();
                world.ents[k] = Entity {
                    renderer: Some(Renderer::RectRenderer {
                        width,
                        height: h,
                        color,
                        z,
                        fixed,
                    }),
                    position: Some(Position { x: pos.x, y: HUD_BAR_TOP + (HUD_BAR_SPAN - h) }),
                    ..e
                };
            }
        }
        k += 1;
    }
}

} // verus!
