use vstd::prelude::*;
use crate::fixed::{SCALE, div_trunc, fxmul, in_i64, lemma_div_trunc_bound};
use crate::store::{Entity, World, all_in_bounds, dt_in_bounds};
use crate::{COORD_LIMIT, DT_LIMIT, Finish, MASS_LIMIT, VEL_LIMIT};

verus! {

/// A point in world space, in raw fixed-point steps (see `fixed::SCALE`).
#[derive(Clone, Copy, PartialEq, Eq, Structural, Debug)]
pub struct Position {
    pub x: i64,
    pub y: i64,
}

/// A velocity in world units per second, in raw fixed-point steps.
#[derive(Clone, Copy, PartialEq, Eq, Structural, Debug)]
pub struct Velocity {
    pub x: i64,
    pub y: i64,
}

/// A celestial body: it attracts movers and crashes the spacecraft when
/// the craft comes closer than `radius`.
#[derive(Clone, Copy, PartialEq, Eq, Structural, Debug)]
pub struct Celestial {
    pub mass: i64,
    pub radius: i64,
}

/// A bare attracting mass with no collision hazard.
#[derive(Clone, Copy, PartialEq, Eq, Structural, Debug)]
pub struct Mass {
    pub mass: i64,
}

/// Largest magnitude one attractor can add to a velocity component in one
/// tick, for in-bounds entities: `2 * COORD_LIMIT * DT_LIMIT / SCALE * MASS_LIMIT / SCALE`.
pub const GRAV_TERM_BOUND: i64 = 2_000_000_000_000_000;

/// An attractor, reduced to what the gravity pass reads: its position and
/// the mass it pulls with.
pub struct Attractor {
    pub px: int,
    pub py: int,
    pub m: int,
}

/// What the gravity pass reads of one attracting entity.
pub open spec fn attr_of(e: Entity) -> Attractor {
    Attractor {
        px: e.position->Some_0.x as int,
        py: e.position->Some_0.y as int,
        m: e.attractor_mass(),
    }
}

/// The attractors of a store, in row order.
pub open spec fn attractors_of(s: Seq<Entity>) -> Seq<Attractor>
    decreases s.len(),
{
    if s.len() == 0 {
        Seq::empty()
    } else if s.last().is_attractor() {
        attractors_of(s.drop_last()).push(attr_of(s.last()))
    } else {
        attractors_of(s.drop_last())
    }
}

/// Velocity gained along x by a mover at `px` from the given attractors
/// over the time step `dt`: the sum of `(attractor - mover) * dt * mass`.
pub open spec fn grav_sum_x(attrs: Seq<Attractor>, px: int, dt: int) -> int
    decreases attrs.len(),
{
    if attrs.len() == 0 {
        0
    } else {
        grav_sum_x(attrs.drop_last(), px, dt)
            + fxmul(fxmul(attrs.last().px - px, dt), attrs.last().m)
    }
}

/// Velocity gained along y, as `grav_sum_x`.
pub open spec fn grav_sum_y(attrs: Seq<Attractor>, py: int, dt: int) -> int
    decreases attrs.len(),
{
    if attrs.len() == 0 {
        0
    } else {
        grav_sum_y(attrs.drop_last(), py, dt)
            + fxmul(fxmul(attrs.last().py - py, dt), attrs.last().m)
    }
}

/// The x velocity of mover `i` after one gravity pass.
pub open spec fn grav_new_vx(s: Seq<Entity>, i: int, dt: int) -> int {
    s[i].velocity->Some_0.x + grav_sum_x(attractors_of(s), s[i].position->Some_0.x as int, dt)
}

/// The y velocity of mover `i` after one gravity pass.
pub open spec fn grav_new_vy(s: Seq<Entity>, i: int, dt: int) -> int {
    s[i].velocity->Some_0.y + grav_sum_y(attractors_of(s), s[i].position->Some_0.y as int, dt)
}

/// The x position of mover `i` after one gravity pass: the old position
/// advanced by the already-updated velocity (semi-implicit Euler).
pub open spec fn grav_new_px(s: Seq<Entity>, i: int, dt: int) -> int {
    s[i].position->Some_0.x + fxmul(grav_new_vx(s, i, dt), dt)
}

/// The y position of mover `i` after one gravity pass.
pub open spec fn grav_new_py(s: Seq<Entity>, i: int, dt: int) -> int {
    s[i].position->Some_0.y + fxmul(grav_new_vy(s, i, dt), dt)
}

/// Row `i` after one gravity pass: movers get the integrated velocity and
/// position, every other row is untouched.
pub open spec fn gravity_upd(s: Seq<Entity>, i: int, dt: int) -> Entity {
    if s[i].is_mover() {
        Entity {
            velocity: Some(Velocity {
                x: grav_new_vx(s, i, dt) as i64,
                y: grav_new_vy(s, i, dt) as i64,
            }),
            position: Some(Position {
                x: grav_new_px(s, i, dt) as i64,
                y: grav_new_py(s, i, dt) as i64,
            }),
            ..s[i]
        }
    } else {
        s[i]
    }
}

/// The machine-width condition of the gravity pass: every integrated
/// velocity and position still fits the raw representation.
pub open spec fn gravity_fits(s: Seq<Entity>, dt: int) -> bool {
    forall|i: int| 0 <= i < s.len() && (#[trigger] s[i]).is_mover() ==> {
        &&& in_i64(grav_new_vx(s, i, dt))
        &&& in_i64(grav_new_vy(s, i, dt))
        &&& in_i64(grav_new_px(s, i, dt))
        &&& in_i64(grav_new_py(s, i, dt))
    }
}

/// Integrate every mover: add to its velocity the pull of every attractor,
/// then advance its position by the new velocity. Attractor positions are
/// read from a snapshot taken before any mover moves, so the outcome does
/// not depend on row order, and a moving attractor never pulls on itself.
pub fn system_gravity(world: &mut World, delta: i64)
    requires
        all_in_bounds(old(world).ents@),
        dt_in_bounds(delta),
        gravity_fits(old(world).ents@, delta as int),
    ensures
        final(world).ents@.len() == old(world).ents@.len(),
        forall|i: int| 0 <= i < old(world).ents@.len() ==>
            final(world).ents@[i] == gravity_upd(old(world).ents@, i, delta as int),
{
    let ghost s0 = world.ents@;
    let ghost attrs = attractors_of(s0);
    let n = world.ents.len();

    let mut planets: Vec<(Position, i64)> = Vec::new();
    let mut i: usize = 0;
    while i < n
        invariant
            i <= n == s0.len(),
            world.ents@ == s0,
            all_in_bounds(s0),
            planets@.map_values(|p: (Position, i64)| attr_of_pair(p)) =~= attractors_of(s0.take(i as int)),
            forall|k: int| 0 <= k < planets@.len() ==> {
                &&& -COORD_LIMIT <= (#[trigger] planets@[k]).0.x <= COORD_LIMIT
                &&& -COORD_LIMIT <= planets@[k].0.y <= COORD_LIMIT
                &&& 0 <= planets@[k].1 <= MASS_LIMIT
            },
        decreases n - i,
    {
        let e = &world.ents[i];
        if e.position.is_some() && (e.celestial.is_some() || e.mass.is_some()) {
            let pos = e.position.unwrap();
            let m: i64 = match e.celestial {
                Some(c) => c.mass,
                None => e.mass.unwrap().mass,
            };
            proof {
                assert(s0[i as int].in_bounds());
            }
            planets.push((pos, m));
        }
        proof {
            assert(s0.take(i + 1).drop_last() =~= s0.take(i as int));
            assert(s0.take(i + 1).last() == s0[i as int]);
            assert(planets@.map_values(|p: (Position, i64)| attr_of_pair(p))
                =~= attractors_of(s0.take(i + 1)));
        }
        i += 1;
    }
    proof {
        assert(s0.take(n as int) =~= s0);
        assert(planets@.map_values(|p: (Position, i64)| attr_of_pair(p)) =~= attrs);
    }

    let np = planets.len();
    let mut j: usize = 0;
    while j < n
        invariant
            j <= n == s0.len(),
            world.ents@.len() == s0.len(),
            np == planets@.len(),
            all_in_bounds(s0),
            dt_in_bounds(delta),
            gravity_fits(s0, delta as int),
            planets@.map_values(|p: (Position, i64)| attr_of_pair(p)) =~= attrs,
            attrs == attractors_of(s0),
            forall|k: int| 0 <= k < planets@.len() ==> {
                &&& -COORD_LIMIT <= (#[trigger] planets@[k]).0.x <= COORD_LIMIT
                &&& -COORD_LIMIT <= planets@[k].0.y <= COORD_LIMIT
                &&& 0 <= planets@[k].1 <= MASS_LIMIT
            },
            forall|k: int| 0 <= k < j ==>
                world.ents@[k] == gravity_upd(s0, k, delta as int),
            forall|k: int| j <= k < n ==> world.ents@[k] == s0[k],
        decreases n - j,
    {
        let e: Entity = world.ents[j];
        if e.position.is_some() && e.velocity.is_some() {
            let pos = e.position.unwrap();
            let vel = e.velocity.unwrap();
            let mut accx: i128 = 0;
            let mut accy: i128 = 0;
            let mut k: usize = 0;
            while k < np
                invariant
                    k <= np == planets@.len(),
                    e == s0[j as int],
                    j < s0.len(),
                    e.position is Some && pos == e.position->Some_0,
                    all_in_bounds(s0),
                    dt_in_bounds(delta),
                    planets@.map_values(|p: (Position, i64)| attr_of_pair(p)) =~= attrs,
                    forall|q: int| 0 <= q < planets@.len() ==> {
                        &&& -COORD_LIMIT <= (#[trigger] planets@[q]).0.x <= COORD_LIMIT
                        &&& -COORD_LIMIT <= planets@[q].0.y <= COORD_LIMIT
                        &&& 0 <= planets@[q].1 <= MASS_LIMIT
                    },
                    accx == grav_sum_x(attrs.take(k as int), pos.x as int, delta as int),
                    accy == grav_sum_y(attrs.take(k as int), pos.y as int, delta as int),
                    -(k as int) * (GRAV_TERM_BOUND as int) <= accx <= (k as int) * (GRAV_TERM_BOUND as int),
                    -(k as int) * (GRAV_TERM_BOUND as int) <= accy <= (k as int) * (GRAV_TERM_BOUND as int),
                decreases np - k,
            {
                let (ppos, pm) = planets[k];
                proof {
                    assert(s0[j as int].in_bounds());
                    assert((ppos.x as i128 - pos.x as i128) * (delta as i128)
                        <= 2_000_000_000_000_000_000
                        && (ppos.x as i128 - pos.x as i128) * (delta as i128)
                        >= -2_000_000_000_000_000_000) by (nonlinear_arith)
                        requires
                            -2_000_000_000_000 <= ppos.x as i128 - pos.x as i128 <= 2_000_000_000_000,
                            0 <= delta <= 1_000_000,
                    ;
                    assert((ppos.y as i128 - pos.y as i128) * (delta as i128)
                        <= 2_000_000_000_000_000_000
                        && (ppos.y as i128 - pos.y as i128) * (delta as i128)
                        >= -2_000_000_000_000_000_000) by (nonlinear_arith)
                        requires
                            -2_000_000_000_000 <= ppos.y as i128 - pos.y as i128 <= 2_000_000_000_000,
                            0 <= delta <= 1_000_000,
                    ;
                }
                let dx: i128 = ppos.x as i128 - pos.x as i128;
                let dy: i128 = ppos.y as i128 - pos.y as i128;
                let t1x: i128 = crate::fixed::div_trunc_i128(dx * delta as i128, SCALE as i128);
                let t1y: i128 = crate::fixed::div_trunc_i128(dy * delta as i128, SCALE as i128);
                proof {
                    lemma_div_trunc_bound(dx as int * delta as int, 2_000_000_000_000_000_000, SCALE as int);
                    lemma_div_trunc_bound(dy as int * delta as int, 2_000_000_000_000_000_000, SCALE as int);
                    assert(2_000_000_000_000_000_000int / 1_000_000int == 2_000_000_000_000) by (nonlinear_arith);
                    assert(t1x * pm as i128 <= 2_000_000_000_000_000_000_000
                        && t1x * pm as i128 >= -2_000_000_000_000_000_000_000) by (nonlinear_arith)
                        requires
                            -2_000_000_000_000 <= t1x <= 2_000_000_000_000,
                            0 <= pm <= 1_000_000_000,
                    ;
                    assert(t1y * pm as i128 <= 2_000_000_000_000_000_000_000
                        && t1y * pm as i128 >= -2_000_000_000_000_000_000_000) by (nonlinear_arith)
                        requires
                            -2_000_000_000_000 <= t1y <= 2_000_000_000_000,
                            0 <= pm <= 1_000_000_000,
                    ;
                }
                let t2x: i128 = crate::fixed::div_trunc_i128(t1x * pm as i128, SCALE as i128);
                let t2y: i128 = crate::fixed::div_trunc_i128(t1y * pm as i128, SCALE as i128);
                proof {
                    lemma_div_trunc_bound(t1x as int * pm as int, 2_000_000_000_000_000_000_000, SCALE as int);
                    lemma_div_trunc_bound(t1y as int * pm as int, 2_000_000_000_000_000_000_000, SCALE as int);
                    assert(2_000_000_000_000_000_000_000int / 1_000_000int == 2_000_000_000_000_000) by (nonlinear_arith);
                    assert(attrs[k as int] == attr_of_pair(planets@[k as int]));
                    assert(attrs.take(k + 1).drop_last() =~= attrs.take(k as int));
                    assert(attrs.take(k + 1).last() == attrs[k as int]);
                }
                accx = accx + t2x;
                accy = accy + t2y;
                k += 1;
            }
            proof {
                assert(attrs.take(np as int) =~= attrs);
                assert(s0[j as int].is_mover());
                assert(accx == grav_sum_x(attrs, pos.x as int, delta as int));
                assert(accy == grav_sum_y(attrs, pos.y as int, delta as int));
                assert(in_i64(grav_new_vx(s0, j as int, delta as int)));
            }
            let nvx: i64 = (vel.x as i128 + accx) as i64;
            let nvy: i64 = (vel.y as i128 + accy) as i64;
            proof {
                assert((nvx as i128) * (delta as i128) <= 0x7fffffffffffffffffffffffffffffff
                    && (nvx as i128) * (delta as i128) >= -0x7fffffffffffffffffffffffffffffff) by (nonlinear_arith)
                    requires
                        -0x8000000000000000 <= nvx as i128 <= 0x7fffffffffffffff,
                        0 <= delta <= 1_000_000,
                ;
                assert((nvy as i128) * (delta as i128) <= 0x7fffffffffffffffffffffffffffffff
                    && (nvy as i128) * (delta as i128) >= -0x7fffffffffffffffffffffffffffffff) by (nonlinear_arith)
                    requires
                        -0x8000000000000000 <= nvy as i128 <= 0x7fffffffffffffff,
                        0 <= delta <= 1_000_000,
                ;
            }
            let sx: i128 = crate::fixed::div_trunc_i128((nvx as i128) * (delta as i128), SCALE as i128);
            let sy: i128 = crate::fixed::div_trunc_i128((nvy as i128) * (delta as i128), SCALE as i128);
            let npx: i64 = (pos.x as i128 + sx) as i64;
            let npy: i64 = (pos.y as i128 + sy) as i64;
            world.ents[j] = Entity {
                velocity: Some(Velocity { x: nvx, y: nvy }),
                position: Some(Position { x: npx, y: npy }),
                ..e
            };
        }
        j += 1;
    }
}

/// The whole store after one gravity pass.
pub open spec fn gravity_upd_world(s: Seq<Entity>, dt: int) -> Seq<Entity> {
    Seq::new(s.len(), |i: int| gravity_upd(s, i, dt))
}

/// The whole store after one crash pass.
pub open spec fn crash_upd_world(s: Seq<Entity>) -> Seq<Entity> {
    Seq::new(s.len(), |i: int| crash_upd(s, i))
}

/// The crash pass touches only run-state flags, so it keeps every row in
/// range.
pub proof fn lemma_crash_upd_in_bounds(s: Seq<Entity>)
    requires
        all_in_bounds(s),
    ensures
        all_in_bounds(crash_upd_world(s)),
{
    assert forall|i: int| 0 <= i < crash_upd_world(s).len() implies
        (#[trigger] crash_upd_world(s)[i]).in_bounds() by {
        assert(s[i].in_bounds());
    }
}

/// What the gravity pass reads of one snapshot pair.
pub open spec fn attr_of_pair(p: (Position, i64)) -> Attractor {
    Attractor { px: p.0.x as int, py: p.0.y as int, m: p.1 as int }
}

/// Decide at run time whether one gravity pass from this store would
/// integrate every mover into the raw range and back within the
/// simulation's bounds — without touching the store.
pub fn check_gravity_step(world: &World, delta: i64) -> (b: bool)
    requires
        all_in_bounds(world.ents@),
        dt_in_bounds(delta),
    ensures
        b == (gravity_fits(world.ents@, delta as int) && all_in_bounds(
            gravity_upd_world(world.ents@, delta as int),
        )),
{
    let ghost s0 = world.ents@;
    let ghost attrs = attractors_of(s0);
    let n = world.ents.len();

    let mut planets: Vec<(Position, i64)> = Vec::new();
    let mut i: usize = 0;
    while i < n
        invariant
            i <= n == s0.len(),
            world.ents@ == s0,
            all_in_bounds(s0),
            planets@.map_values(|p: (Position, i64)| attr_of_pair(p)) =~= attractors_of(s0.take(i as int)),
            forall|k: int| 0 <= k < planets@.len() ==> {
                &&& -COORD_LIMIT <= (#[trigger] planets@[k]).0.x <= COORD_LIMIT
                &&& -COORD_LIMIT <= planets@[k].0.y <= COORD_LIMIT
                &&& 0 <= planets@[k].1 <= MASS_LIMIT
            },
        decreases n - i,
    {
        let e = &world.ents[i];
        if e.position.is_some() && (e.celestial.is_some() || e.mass.is_some()) {
            let pos = e.position.unwrap();
            let m: i64 = match e.celestial {
                Some(c) => c.mass,
                None => e.mass.unwrap().mass,
            };
            proof {
                assert(s0[i as int].in_bounds());
            }
            planets.push((pos, m));
        }
        proof {
            assert(s0.take(i + 1).drop_last() =~= s0.take(i as int));
            assert(s0.take(i + 1).last() == s0[i as int]);
            assert(planets@.map_values(|p: (Position, i64)| attr_of_pair(p))
                =~= attractors_of(s0.take(i + 1)));
        }
        i += 1;
    }
    proof {
        assert(s0.take(n as int) =~= s0);
        assert(planets@.map_values(|p: (Position, i64)| attr_of_pair(p)) =~= attrs);
    }

    let np = planets.len();
    let mut j: usize = 0;
    while j < n
        invariant
            j <= n == s0.len(),
            world.ents@ == s0,
            np == planets@.len(),
            all_in_bounds(s0),
            dt_in_bounds(delta),
            planets@.map_values(|p: (Position, i64)| attr_of_pair(p)) =~= attrs,
            attrs == attractors_of(s0),
            forall|k: int| 0 <= k < planets@.len() ==> {
                &&& -COORD_LIMIT <= (#[trigger] planets@[k]).0.x <= COORD_LIMIT
                &&& -COORD_LIMIT <= planets@[k].0.y <= COORD_LIMIT
                &&& 0 <= planets@[k].1 <= MASS_LIMIT
            },
            forall|k: int| 0 <= k < j && (#[trigger] s0[k]).is_mover() ==> {
                &&& in_i64(grav_new_vx(s0, k, delta as int))
                &&& in_i64(grav_new_vy(s0, k, delta as int))
                &&& in_i64(grav_new_px(s0, k, delta as int))
                &&& in_i64(grav_new_py(s0, k, delta as int))
                &&& -VEL_LIMIT as int <= grav_new_vx(s0, k, delta as int) <= VEL_LIMIT as int
                &&& -VEL_LIMIT as int <= grav_new_vy(s0, k, delta as int) <= VEL_LIMIT as int
                &&& -COORD_LIMIT as int <= grav_new_px(s0, k, delta as int) <= COORD_LIMIT as int
                &&& -COORD_LIMIT as int <= grav_new_py(s0, k, delta as int) <= COORD_LIMIT as int
            },
        decreases n - j,
    {
        let e: Entity = world.ents[j];
        if e.position.is_some() && e.velocity.is_some() {
            let pos = e.position.unwrap();
            let vel = e.velocity.unwrap();
            let mut accx: i128 = 0;
            let mut accy: i128 = 0;
            let mut k: usize = 0;
            while k < np
                invariant
                    k <= np == planets@.len(),
                    e == s0[j as int],
                    j < s0.len(),
                    e.position is Some && pos == e.position->Some_0,
                    all_in_bounds(s0),
                    dt_in_bounds(delta),
                    planets@.map_values(|p: (Position, i64)| attr_of_pair(p)) =~= attrs,
                    forall|q: int| 0 <= q < planets@.len() ==> {
                        &&& -COORD_LIMIT <= (#[trigger] planets@[q]).0.x <= COORD_LIMIT
                        &&& -COORD_LIMIT <= planets@[q].0.y <= COORD_LIMIT
                        &&& 0 <= planets@[q].1 <= MASS_LIMIT
                    },
                    accx == grav_sum_x(attrs.take(k as int), pos.x as int, delta as int),
                    accy == grav_sum_y(attrs.take(k as int), pos.y as int, delta as int),
                    -(k as int) * (GRAV_TERM_BOUND as int) <= accx <= (k as int) * (GRAV_TERM_BOUND as int),
                    -(k as int) * (GRAV_TERM_BOUND as int) <= accy <= (k as int) * (GRAV_TERM_BOUND as int),
                decreases np - k,
            {
                let (ppos, pm) = planets[k];
                proof {
                    assert(s0[j as int].in_bounds());
                    assert((ppos.x as i128 - pos.x as i128) * (delta as i128)
                        <= 2_000_000_000_000_000_000
                        && (ppos.x as i128 - pos.x as i128) * (delta as i128)
                        >= -2_000_000_000_000_000_000) by (nonlinear_arith)
                        requires
                            -2_000_000_000_000 <= ppos.x as i128 - pos.x as i128 <= 2_000_000_000_000,
                            0 <= delta <= 1_000_000,
                    ;
                    assert((ppos.y as i128 - pos.y as i128) * (delta as i128)
                        <= 2_000_000_000_000_000_000
                        && (ppos.y as i128 - pos.y as i128) * (delta as i128)
                        >= -2_000_000_000_000_000_000) by (nonlinear_arith)
                        requires
                            -2_000_000_000_000 <= ppos.y as i128 - pos.y as i128 <= 2_000_000_000_000,
                            0 <= delta <= 1_000_000,
                    ;
                }
                let dx: i128 = ppos.x as i128 - pos.x as i128;
                let dy: i128 = ppos.y as i128 - pos.y as i128;
                let t1x: i128 = crate::fixed::div_trunc_i128(dx * delta as i128, SCALE as i128);
                let t1y: i128 = crate::fixed::div_trunc_i128(dy * delta as i128, SCALE as i128);
                proof {
                    lemma_div_trunc_bound(dx as int * delta as int, 2_000_000_000_000_000_000, SCALE as int);
                    lemma_div_trunc_bound(dy as int * delta as int, 2_000_000_000_000_000_000, SCALE as int);
                    assert(2_000_000_000_000_000_000int / 1_000_000int == 2_000_000_000_000) by (nonlinear_arith);
                    assert(t1x * pm as i128 <= 2_000_000_000_000_000_000_000
                        && t1x * pm as i128 >= -2_000_000_000_000_000_000_000) by (nonlinear_arith)
                        requires
                            -2_000_000_000_000 <= t1x <= 2_000_000_000_000,
                            0 <= pm <= 1_000_000_000,
                    ;
                    assert(t1y * pm as i128 <= 2_000_000_000_000_000_000_000
                        && t1y * pm as i128 >= -2_000_000_000_000_000_000_000) by (nonlinear_arith)
                        requires
                            -2_000_000_000_000 <= t1y <= 2_000_000_000_000,
                            0 <= pm <= 1_000_000_000,
                    ;
                }
                let t2x: i128 = crate::fixed::div_trunc_i128(t1x * pm as i128, SCALE as i128);
                let t2y: i128 = crate::fixed::div_trunc_i128(t1y * pm as i128, SCALE as i128);
                proof {
                    lemma_div_trunc_bound(t1x as int * pm as int, 2_000_000_000_000_000_000_000, SCALE as int);
                    lemma_div_trunc_bound(t1y as int * pm as int, 2_000_000_000_000_000_000_000, SCALE as int);
                    assert(2_000_000_000_000_000_000_000int / 1_000_000int == 2_000_000_000_000_000) by (nonlinear_arith);
                    assert(attrs[k as int] == attr_of_pair(planets@[k as int]));
                    assert(attrs.take(k + 1).drop_last() =~= attrs.take(k as int));
                    assert(attrs.take(k + 1).last() == attrs[k as int]);
                }
                accx = accx + t2x;
                accy = accy + t2y;
                k += 1;
            }
            proof {
                assert(attrs.take(np as int) =~= attrs);
                assert(s0[j as int].is_mover());
                assert(accx == grav_sum_x(attrs, pos.x as int, delta as int));
                assert(accy == grav_sum_y(attrs, pos.y as int, delta as int));
            }
            let nvx: i128 = vel.x as i128 + accx;
            let nvy: i128 = vel.y as i128 + accy;
            proof {
                assert(nvx as int == grav_new_vx(s0, j as int, delta as int));
                assert(nvy as int == grav_new_vy(s0, j as int, delta as int));
            }
            if !(-VEL_LIMIT as i128 <= nvx && nvx <= VEL_LIMIT as i128 && -VEL_LIMIT as i128 <= nvy
                && nvy <= VEL_LIMIT as i128) {
                proof {
                    if in_i64(grav_new_vx(s0, j as int, delta as int)) && in_i64(
                        grav_new_vy(s0, j as int, delta as int),
                    ) {
                        let u = gravity_upd(s0, j as int, delta as int);
                        assert(u.velocity->Some_0.x as int == nvx as int);
                        assert(u.velocity->Some_0.y as int == nvy as int);
                        assert(!u.in_bounds());
                        assert(gravity_upd_world(s0, delta as int)[j as int] == u);
                        assert(gravity_upd_world(s0, delta as int)[j as int].in_bounds()
                            == u.in_bounds());
                        assert(!all_in_bounds(gravity_upd_world(s0, delta as int)));
                    }
                }
                return false;
            }
            proof {
                assert((nvx as i128) * (delta as i128) <= 0x7fffffffffffffffffffffffffffffff
                    && (nvx as i128) * (delta as i128) >= -0x7fffffffffffffffffffffffffffffff) by (nonlinear_arith)
                    requires
                        -1_000_000_000_000 <= nvx <= 1_000_000_000_000,
                        0 <= delta <= 1_000_000,
                ;
                assert((nvy as i128) * (delta as i128) <= 0x7fffffffffffffffffffffffffffffff
                    && (nvy as i128) * (delta as i128) >= -0x7fffffffffffffffffffffffffffffff) by (nonlinear_arith)
                    requires
                        -1_000_000_000_000 <= nvy <= 1_000_000_000_000,
                        0 <= delta <= 1_000_000,
                ;
            }
            let sx: i128 = crate::fixed::div_trunc_i128(nvx * (delta as i128), SCALE as i128);
            let sy: i128 = crate::fixed::div_trunc_i128(nvy * (delta as i128), SCALE as i128);
            let npx: i128 = pos.x as i128 + sx;
            let npy: i128 = pos.y as i128 + sy;
            proof {
                assert(npx as int == grav_new_px(s0, j as int, delta as int));
                assert(npy as int == grav_new_py(s0, j as int, delta as int));
            }
            if !(-COORD_LIMIT as i128 <= npx && npx <= COORD_LIMIT as i128 && -COORD_LIMIT as i128
                <= npy && npy <= COORD_LIMIT as i128) {
                proof {
                    if in_i64(grav_new_px(s0, j as int, delta as int)) && in_i64(
                        grav_new_py(s0, j as int, delta as int),
                    ) {
                        let u = gravity_upd(s0, j as int, delta as int);
                        assert(u.position->Some_0.x as int == npx as int);
                        assert(u.position->Some_0.y as int == npy as int);
                        assert(!u.in_bounds());
                        assert(gravity_upd_world(s0, delta as int)[j as int] == u);
                        assert(!all_in_bounds(gravity_upd_world(s0, delta as int)));
                    }
                }
                return false;
            }
        }
        j += 1;
    }
    proof {
        assert forall|k: int| 0 <= k < gravity_upd_world(s0, delta as int).len() implies
            (#[trigger] gravity_upd_world(s0, delta as int)[k]).in_bounds() by {
            assert(s0[k].in_bounds());
            assert(gravity_upd_world(s0, delta as int)[k] == gravity_upd(s0, k, delta as int));
        }
    }
    true
}

/// Squared Euclidean distance between two points.
pub open spec fn sq_dist(ax: int, ay: int, bx: int, by: int) -> int {
    (ax - bx) * (ax - bx) + (ay - by) * (ay - by)
}

/// Whether celestial body `j` overlaps ship `i`: their distance is
/// strictly below the body's collision radius.
pub open spec fn cel_hits_ship(s: Seq<Entity>, i: int, j: int) -> bool {
    &&& s[i].is_ship()
    &&& s[j].position is Some
    &&& s[j].celestial is Some
    &&& sq_dist(
        s[j].position->Some_0.x as int,
        s[j].position->Some_0.y as int,
        s[i].position->Some_0.x as int,
        s[i].position->Some_0.y as int,
    ) < (s[j].celestial->Some_0.radius as int) * (s[j].celestial->Some_0.radius as int)
}

/// Whether any celestial body overlaps any ship.
pub open spec fn crash_hit(s: Seq<Entity>) -> bool {
    exists|i: int, j: int| 0 <= i < s.len() && 0 <= j < s.len() && cel_hits_ship(s, i, j)
}

/// Row `i` after the crash pass: run-state rows record the hit, every
/// other row is untouched.
pub open spec fn crash_upd(s: Seq<Entity>, i: int) -> Entity {
    if s[i].finish is Some && crash_hit(s) {
        Entity {
            finish: Some(Finish { finish: s[i].finish->Some_0.finish, crash: true }),
            ..s[i]
        }
    } else {
        s[i]
    }
}

/// Mark the run state crashed when any ship sits strictly inside the
/// collision radius of any celestial body.
pub fn system_crash(world: &mut World)
    requires
        all_in_bounds(old(world).ents@),
    ensures
        final(world).ents@.len() == old(world).ents@.len(),
        forall|i: int| 0 <= i < old(world).ents@.len() ==>
            final(world).ents@[i] == crash_upd(old(world).ents@, i),
{
    let ghost s0 = world.ents@;
    let n = world.ents.len();
    let mut hit = false;
    let mut i: usize = 0;
    while i < n
        invariant
            i <= n == s0.len(),
            world.ents@ == s0,
            all_in_bounds(s0),
            hit == exists|a: int, b: int| 0 <= a < i && 0 <= b < n && cel_hits_ship(s0, a, b),
        decreases n - i,
    {
        let e = &world.ents[i];
        if e.spaceship.is_some() && e.position.is_some() {
            let sp = e.position.unwrap();
            let ghost hit0 = hit;
            let mut j: usize = 0;
            while j < n
                invariant
                    j <= n == s0.len(),
                    i < n,
                    world.ents@ == s0,
                    all_in_bounds(s0),
                    s0[i as int].is_ship(),
                    sp == s0[i as int].position->Some_0,
                    hit == (hit0 || exists|b: int| 0 <= b < j && cel_hits_ship(s0, i as int, b)),
                decreases n - j,
            {
                let c = &world.ents[j];
                if c.celestial.is_some() && c.position.is_some() {
                    let cp = c.position.unwrap();
                    let cel = c.celestial.unwrap();
                    proof {
                        assert(s0[i as int].in_bounds());
                        assert(s0[j as int].in_bounds());
                        assert((cp.x as i128 - sp.x as i128) * (cp.x as i128 - sp.x as i128)
                            <= 4_000_000_000_000_000_000_000_000
                            && (cp.x as i128 - sp.x as i128) * (cp.x as i128 - sp.x as i128) >= 0) by (nonlinear_arith)
                            requires
                                -2_000_000_000_000 <= cp.x as i128 - sp.x as i128 <= 2_000_000_000_000,
                        ;
                        assert((cp.y as i128 - sp.y as i128) * (cp.y as i128 - sp.y as i128)
                            <= 4_000_000_000_000_000_000_000_000
                            && (cp.y as i128 - sp.y as i128) * (cp.y as i128 - sp.y as i128) >= 0) by (nonlinear_arith)
                            requires
                                -2_000_000_000_000 <= cp.y as i128 - sp.y as i128 <= 2_000_000_000_000,
                        ;
                        assert((cel.radius as i128) * (cel.radius as i128)
                            <= 1_000_000_000_000_000_000_000_000) by (nonlinear_arith)
                            requires
                                0 <= cel.radius as i128 <= 1_000_000_000_000,
                        ;
                    }
                    let dx: i128 = cp.x as i128 - sp.x as i128;
                    let dy: i128 = cp.y as i128 - sp.y as i128;
                    let d2: i128 = dx * dx + dy * dy;
                    let r2: i128 = (cel.radius as i128) * (cel.radius as i128);
                    if d2 < r2 {
                        hit = true;
                        proof {
                            assert(cel_hits_ship(s0, i as int, j as int));
                        }
                    } else {
                        proof {
                            assert(!cel_hits_ship(s0, i as int, j as int));
                        }
                    }
                } else {
                    proof {
                        assert(!cel_hits_ship(s0, i as int, j as int));
                    }
                }
                j += 1;
            }
        }
        i += 1;
    }

    if hit {
        proof {
            assert(crash_hit(s0));
        }
        let mut k: usize = 0;
        while k < n
            invariant
                k <= n == s0.len(),
                world.ents@.len() == s0.len(),
                crash_hit(s0),
                forall|q: int| 0 <= q < k ==> world.ents@[q] == crash_upd(s0, q),
                forall|q: int| k <= q < n ==> world.ents@[q] == s0[q],
            decreases n - k,
        {
            let e: Entity = world.ents[k];
            if let Some(f) = e.finish {
                world.ents[k] = Entity {
                    finish: Some(Finish { finish: f.finish, crash: true }),
                    ..e
                };
            }
            k += 1;
        }
    }
}

} // verus!
