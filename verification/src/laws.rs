use vstd::prelude::*;
use crate::dynamics::{attractors_of, grav_sum_x, grav_sum_y, gravity_upd, gravity_upd_world};
use crate::fixed::{SCALE, div_trunc, fxmul, in_i64};
use crate::input::{FUEL_BURN, Input, MAX_SPEED, cand_committed, fuel_after, heading_x, heading_y,
    input_upd, speed_sq, thrust_dvx, thrust_dvy};
use crate::store::{Entity, first_matching};
use crate::{finish_spawns, has_finish, overlay_ents, tick_input, tick_world, zone_hit};

verus! {

/// The store after `n` gravity passes of the same time step.
pub open spec fn iter_gravity(s: Seq<Entity>, dt: int, n: nat) -> Seq<Entity>
    decreases n,
{
    if n == 0 {
        s
    } else {
        gravity_upd_world(iter_gravity(s, dt, (n - 1) as nat), dt)
    }
}

/// One gravity pass keeps every row's attached components: only values
/// move, never the shape of the store.
proof fn lemma_gravity_keeps_shape(s: Seq<Entity>, dt: int)
    ensures
        gravity_upd_world(s, dt).len() == s.len(),
        forall|i: int| 0 <= i < s.len() ==> {
            let e = #[trigger] gravity_upd_world(s, dt)[i];
            &&& e.position is Some <==> s[i].position is Some
            &&& e.velocity is Some <==> s[i].velocity is Some
            &&& e.celestial == s[i].celestial
            &&& e.mass == s[i].mass
            &&& e.spaceship == s[i].spaceship
            &&& e.finish == s[i].finish
        },
{
}

/// A store with no attractor among its rows contributes nothing to any
/// gravity sum.
proof fn lemma_no_attractors(s: Seq<Entity>)
    requires
        forall|i: int| 0 <= i < s.len() ==> !(#[trigger] s[i]).is_attractor(),
    ensures
        attractors_of(s).len() == 0,
    decreases s.len(),
{
    if s.len() > 0 {
        assert(!s[s.len() - 1].is_attractor());
        lemma_no_attractors(s.drop_last());
    }
}

/// Gravity-only inertia: with no attractor in the store, a mover's
/// velocity never changes, and over `n` passes its position advances
/// linearly — by `n` times the per-tick step `fxmul(velocity, dt)`.
pub proof fn lemma_gravity_inertia(s: Seq<Entity>, dt: int, n: nat, i: int)
    requires
        0 <= i < s.len(),
        s[i].is_mover(),
        forall|k: int| 0 <= k < s.len() ==> !(#[trigger] s[k]).is_attractor(),
        forall|k: nat| k <= n ==> #[trigger] in_i64(
            s[i].position->Some_0.x + k * fxmul(s[i].velocity->Some_0.x as int, dt),
        ) && in_i64(s[i].position->Some_0.y + k * fxmul(s[i].velocity->Some_0.y as int, dt)),
    ensures
        iter_gravity(s, dt, n).len() == s.len(),
        iter_gravity(s, dt, n)[i].velocity == s[i].velocity,
        iter_gravity(s, dt, n)[i].position->Some_0.x as int == s[i].position->Some_0.x + n * fxmul(
            s[i].velocity->Some_0.x as int,
            dt,
        ),
        iter_gravity(s, dt, n)[i].position->Some_0.y as int == s[i].position->Some_0.y + n * fxmul(
            s[i].velocity->Some_0.y as int,
            dt,
        ),
    decreases n,
{
    if n == 0 {
    } else {
        lemma_gravity_inertia(s, dt, (n - 1) as nat, i);
        let t = iter_gravity(s, dt, (n - 1) as nat);
        lemma_iter_gravity_keeps(s, dt, (n - 1) as nat);
        lemma_no_attractors(t);
        assert(attractors_of(t) =~= Seq::<crate::dynamics::Attractor>::empty());
        assert(grav_sum_x(attractors_of(t), t[i].position->Some_0.x as int, dt) == 0);
        assert(grav_sum_y(attractors_of(t), t[i].position->Some_0.y as int, dt) == 0);
        assert(iter_gravity(s, dt, n) == gravity_upd_world(t, dt));
        let px0 = s[i].position->Some_0.x as int;
        let py0 = s[i].position->Some_0.y as int;
        let fx = fxmul(s[i].velocity->Some_0.x as int, dt);
        let fy = fxmul(s[i].velocity->Some_0.y as int, dt);
        assert(((n - 1) as nat) * fx + fx == n * fx) by (nonlinear_arith)
            requires n >= 1,
        ;
        assert(((n - 1) as nat) * fy + fy == n * fy) by (nonlinear_arith)
            requires n >= 1,
        ;
        assert(in_i64(px0 + ((n - 1) as nat) * fx));
        assert(in_i64(px0 + n * fx));
        assert(in_i64(py0 + ((n - 1) as nat) * fy));
        assert(in_i64(py0 + n * fy));
        assert(iter_gravity(s, dt, n)[i] == gravity_upd(t, i, dt));
        assert(crate::dynamics::grav_new_vx(t, i, dt) == s[i].velocity->Some_0.x);
        assert(crate::dynamics::grav_new_vy(t, i, dt) == s[i].velocity->Some_0.y);
        assert(crate::dynamics::grav_new_px(t, i, dt) == px0 + n * fx);
        assert(crate::dynamics::grav_new_py(t, i, dt) == py0 + n * fy);
    }
}

/// Iterated gravity keeps every row's attached components and every
/// non-attractor a non-attractor.
proof fn lemma_iter_gravity_keeps(s: Seq<Entity>, dt: int, n: nat)
    requires
        forall|k: int| 0 <= k < s.len() ==> !(#[trigger] s[k]).is_attractor(),
    ensures
        iter_gravity(s, dt, n).len() == s.len(),
        forall|k: int| 0 <= k < s.len() ==> {
            let e = #[trigger] iter_gravity(s, dt, n)[k];
            &&& !e.is_attractor()
            &&& e.position is Some <==> s[k].position is Some
            &&& e.velocity is Some <==> s[k].velocity is Some
        },
    decreases n,
{
    if n > 0 {
        lemma_iter_gravity_keeps(s, dt, (n - 1) as nat);
        lemma_gravity_keeps_shape(iter_gravity(s, dt, (n - 1) as nat), dt);
    }
}

/// Single-attractor pull: with exactly one attractor recorded, a mover's
/// velocity gains exactly `(attractor - mover) * dt * mass` on each axis
/// in one gravity pass.
pub proof fn lemma_single_attractor_pull(s: Seq<Entity>, dt: int, i: int)
    requires
        0 <= i < s.len(),
        s[i].is_mover(),
        attractors_of(s).len() == 1,
    ensures
        ({
            let a = attractors_of(s)[0];
            let vel = s[i].velocity->Some_0;
            let pos = s[i].position->Some_0;
            &&& crate::dynamics::grav_new_vx(s, i, dt) == vel.x + fxmul(
                fxmul(a.px - pos.x, dt),
                a.m,
            )
            &&& crate::dynamics::grav_new_vy(s, i, dt) == vel.y + fxmul(
                fxmul(a.py - pos.y, dt),
                a.m,
            )
        }),
{
    let attrs = attractors_of(s);
    assert(attrs.drop_last() =~= Seq::<crate::dynamics::Attractor>::empty());
    assert(attrs.last() == attrs[0]);
    let pos = s[i].position->Some_0;
    assert(grav_sum_x(attrs.drop_last(), pos.x as int, dt) == 0);
    assert(grav_sum_y(attrs.drop_last(), pos.y as int, dt) == 0);
    assert(grav_sum_x(attrs, pos.x as int, dt) == fxmul(
        fxmul(attrs[0].px - pos.x, dt),
        attrs[0].m,
    ));
    assert(grav_sum_y(attrs, pos.y as int, dt) == fxmul(
        fxmul(attrs[0].py - pos.y, dt),
        attrs[0].m,
    ));
}

/// The craft's one-axis state the input pass rewrites: velocity and
/// fuel, over unbounded integers.
pub open spec fn input_state_step(vx: int, vy: int, fuel: int, inp: Input, dt: int) -> (int, int, int) {
    let cx = vx + thrust_dvx(vx, vy, inp, fuel, dt);
    let cy = vy + thrust_dvy(vx, vy, inp, fuel, dt);
    if cand_committed(cx, cy) {
        (cx, cy, fuel_after(fuel, inp, dt))
    } else {
        (vx, vy, fuel_after(fuel, inp, dt))
    }
}

/// The craft's state after `n` input passes of the same snapshot.
pub open spec fn iter_input_state(vx: int, vy: int, fuel: int, inp: Input, dt: int, n: nat) -> (
    int,
    int,
    int,
)
    decreases n,
{
    if n == 0 {
        (vx, vy, fuel)
    } else {
        let p = iter_input_state(vx, vy, fuel, inp, dt, (n - 1) as nat);
        input_state_step(p.0, p.1, p.2, inp, dt)
    }
}

/// The input pass writes exactly `input_state_step` of the craft's
/// velocity and fuel.
pub proof fn lemma_input_upd_matches_step(s: Seq<Entity>, i: int, inp: Input, dt: int)
    requires
        0 <= i < s.len(),
        s[i].spaceship is Some,
        s[i].velocity is Some,
    ensures
        ({
            let vel = s[i].velocity->Some_0;
            let ship = s[i].spaceship->Some_0;
            let p = input_state_step(vel.x as int, vel.y as int, ship.fuel as int, inp, dt);
            let e = input_upd(s, i, inp, dt);
            &&& e.velocity->Some_0.x as int == p.0 as i64
            &&& e.velocity->Some_0.y as int == p.1 as i64
            &&& e.spaceship->Some_0.fuel as int == p.2 as i64
        }),
{
}

/// A truncating quotient keeps the sign of its dividend.
proof fn lemma_div_trunc_sign(p: int, d: int)
    requires
        0 < d,
    ensures
        p >= 0 ==> div_trunc(p, d) >= 0,
        p <= 0 ==> div_trunc(p, d) <= 0,
{
    crate::fixed::lemma_div_trunc_le(p, d);
}

/// The heading of a moving craft keeps the sign of the velocity, axis
/// by axis. (At rest there is no direction of travel and the heading
/// points right by convention.)
proof fn lemma_heading_sign(vx: int, vy: int)
    requires
        !(vx == 0 && vy == 0),
    ensures
        vx >= 0 ==> heading_x(vx, vy) >= 0,
        vx <= 0 ==> heading_x(vx, vy) <= 0,
        vy >= 0 ==> heading_y(vx, vy) >= 0,
        vy <= 0 ==> heading_y(vx, vy) <= 0,
{
    if vx == 0 && vy == 0 {
    } else {
        let r = crate::fixed::sqrt_floor(speed_sq(vx, vy) as nat) as int;
        crate::fixed::lemma_sqrt_floor(speed_sq(vx, vy) as nat);
        assert(vx >= 0 ==> vx * SCALE >= 0) by (nonlinear_arith)
            requires SCALE == 1_000_000,
        ;
        assert(vx <= 0 ==> vx * SCALE <= 0) by (nonlinear_arith)
            requires SCALE == 1_000_000,
        ;
        assert(vy >= 0 ==> vy * SCALE >= 0) by (nonlinear_arith)
            requires SCALE == 1_000_000,
        ;
        assert(vy <= 0 ==> vy * SCALE <= 0) by (nonlinear_arith)
            requires SCALE == 1_000_000,
        ;
        if r > 0 {
            lemma_div_trunc_sign(vx * SCALE, r);
            lemma_div_trunc_sign(vy * SCALE, r);
        } else {
            assert(speed_sq(vx, vy) > 0) by (nonlinear_arith)
                requires !(vx == 0 && vy == 0) && speed_sq(vx, vy) == vx * vx + vy * vy,
            ;
            assert(r > 0) by (nonlinear_arith)
                requires r >= 0 && speed_sq(vx, vy) > 0 && speed_sq(vx, vy) < (r + 1) * (r + 1),
            ;
        }
    }
}

/// Speed-cap idempotence, one pass: at or over `MAX_SPEED`, held thrust
/// (without brake) is rejected — the velocity is exactly kept — while
/// each such tick still burns its fuel whenever any is left.
pub proof fn lemma_speed_cap_step(vx: int, vy: int, fuel: int, inp: Input, dt: int)
    requires
        speed_sq(vx, vy) >= (MAX_SPEED as int) * (MAX_SPEED as int),
        inp.forward,
        !inp.brake,
        0 <= dt,
    ensures
        input_state_step(vx, vy, fuel, inp, dt).0 == vx,
        input_state_step(vx, vy, fuel, inp, dt).1 == vy,
        input_state_step(vx, vy, fuel, inp, dt).2 == fuel_after(fuel, inp, dt),
        fuel > 0 ==> input_state_step(vx, vy, fuel, inp, dt).2 == fuel - fxmul(
            FUEL_BURN as int,
            dt,
        ),
{
    let cx = vx + thrust_dvx(vx, vy, inp, fuel, dt);
    let cy = vy + thrust_dvy(vx, vy, inp, fuel, dt);
    assert(!(vx == 0 && vy == 0)) by (nonlinear_arith)
        requires vx * vx + vy * vy >= (MAX_SPEED as int) * (MAX_SPEED as int) && MAX_SPEED == 1_000_000_000,
    ;
    lemma_heading_sign(vx, vy);
    assert((crate::input::SPEED_INCREMENT as int) * dt >= 0) by (nonlinear_arith)
        requires dt >= 0,
    ;
    lemma_div_trunc_sign((crate::input::SPEED_INCREMENT as int) * dt, SCALE as int);
    let t = fxmul(crate::input::SPEED_INCREMENT as int, dt);
    let hx = heading_x(vx, vy);
    let hy = heading_y(vx, vy);
    assert(vx >= 0 ==> t * hx >= 0) by (nonlinear_arith)
        requires t >= 0 && (vx >= 0 ==> hx >= 0),
    ;
    assert(vx <= 0 ==> t * hx <= 0) by (nonlinear_arith)
        requires t >= 0 && (vx <= 0 ==> hx <= 0),
    ;
    assert(vy >= 0 ==> t * hy >= 0) by (nonlinear_arith)
        requires t >= 0 && (vy >= 0 ==> hy >= 0),
    ;
    assert(vy <= 0 ==> t * hy <= 0) by (nonlinear_arith)
        requires t >= 0 && (vy <= 0 ==> hy <= 0),
    ;
    if fuel > 0 {
        lemma_div_trunc_sign(t * hx, SCALE as int);
        lemma_div_trunc_sign(t * hy, SCALE as int);
        assert(vx >= 0 ==> cx >= vx);
        assert(vx <= 0 ==> cx <= vx);
        assert(vy >= 0 ==> cy >= vy);
        assert(vy <= 0 ==> cy <= vy);
        assert(cx * cx + cy * cy >= vx * vx + vy * vy) by (nonlinear_arith)
            requires
                (vx >= 0 ==> cx >= vx) && (vx <= 0 ==> cx <= vx),
                (vy >= 0 ==> cy >= vy) && (vy <= 0 ==> cy <= vy),
        ;
        assert(!cand_committed(cx, cy));
    } else {
        assert(cx == vx && cy == vy);
        assert(!cand_committed(cx, cy)) by (nonlinear_arith)
            requires
                cx == vx && cy == vy,
                vx * vx + vy * vy >= (MAX_SPEED as int) * (MAX_SPEED as int),
                cand_committed(cx, cy) <==> cx * cx + cy * cy < (MAX_SPEED as int) * (MAX_SPEED as int),
        ;
    }
}

/// Speed-cap idempotence: once at or over `MAX_SPEED`, any number of
/// held-thrust passes leaves the velocity exactly unchanged.
pub proof fn lemma_speed_cap_idempotent(vx: int, vy: int, fuel: int, inp: Input, dt: int, n: nat)
    requires
        speed_sq(vx, vy) >= (MAX_SPEED as int) * (MAX_SPEED as int),
        inp.forward,
        !inp.brake,
        0 <= dt,
    ensures
        iter_input_state(vx, vy, fuel, inp, dt, n).0 == vx,
        iter_input_state(vx, vy, fuel, inp, dt, n).1 == vy,
    decreases n,
{
    if n > 0 {
        lemma_speed_cap_idempotent(vx, vy, fuel, inp, dt, (n - 1) as nat);
        let p = iter_input_state(vx, vy, fuel, inp, dt, (n - 1) as nat);
        lemma_speed_cap_step(p.0, p.1, p.2, inp, dt);
    }
}

/// Fuel exhaustion, one pass: with the tank at or below empty, the input
/// pass moves neither the velocity nor the fuel, whatever is held.
pub proof fn lemma_fuel_exhausted_step(vx: int, vy: int, fuel: int, inp: Input, dt: int)
    requires
        fuel <= 0,
    ensures
        input_state_step(vx, vy, fuel, inp, dt) == (vx, vy, fuel),
{
    assert(thrust_dvx(vx, vy, inp, fuel, dt) == 0);
    assert(thrust_dvy(vx, vy, inp, fuel, dt) == 0);
    if !cand_committed(vx, vy) {
    }
}

/// Fuel exhaustion: once the tank is at or below empty, any number of
/// input passes with any snapshot leaves velocity and fuel exactly
/// unchanged.
pub proof fn lemma_fuel_exhausted(vx: int, vy: int, fuel: int, inp: Input, dt: int, n: nat)
    requires
        fuel <= 0,
    ensures
        iter_input_state(vx, vy, fuel, inp, dt, n) == (vx, vy, fuel),
    decreases n,
{
    if n > 0 {
        lemma_fuel_exhausted(vx, vy, fuel, inp, dt, (n - 1) as nat);
        lemma_fuel_exhausted_step(vx, vy, fuel, inp, dt);
    }
}

/// The store and input snapshot after `n` full ticks of the same held
/// controls and time step.
pub open spec fn iter_tick(s: Seq<Entity>, inp: Input, dt: int, n: nat) -> (Seq<Entity>, Input)
    decreases n,
{
    if n == 0 {
        (s, inp)
    } else {
        let p = iter_tick(s, inp, dt, (n - 1) as nat);
        (tick_world(p.0, p.1, dt), tick_input(p.0, p.1, dt))
    }
}

/// Two stores whose rows match a selector alike have the same first
/// matching row.
proof fn lemma_first_matching_eq(a: Seq<Entity>, b: Seq<Entity>, p: spec_fn(Entity) -> bool)
    requires
        a.len() == b.len(),
        forall|i: int| 0 <= i < a.len() ==> p(#[trigger] a[i]) == p(b[i]),
    ensures
        first_matching(a, p) == first_matching(b, p),
    decreases a.len(),
{
    if a.len() > 0 {
        let ta = a.subrange(1, a.len() as int);
        let tb = b.subrange(1, b.len() as int);
        assert(forall|i: int| 0 <= i < ta.len() ==> #[trigger] ta[i] == a[i + 1] && tb[i] == b[i
            + 1]);
        lemma_first_matching_eq(ta, tb, p);
    }
}

/// A tick on a store whose run state is already latched appends nothing
/// and keeps the run state latched at the same row.
proof fn lemma_tick_keeps_finished(s: Seq<Entity>, inp: Input, dt: int)
    requires
        first_matching(s, has_finish()) >= 0,
        s[first_matching(s, has_finish())].finish->Some_0.finish,
    ensures
        tick_world(s, inp, dt).len() == s.len(),
        first_matching(tick_world(s, inp, dt), has_finish()) == first_matching(s, has_finish()),
        tick_world(s, inp, dt)[first_matching(s, has_finish())].finish->Some_0.finish,
{
    let f = first_matching(s, has_finish());
    let s1 = crate::tick_s1(s, inp, dt);
    let s2 = crate::tick_s2(s, inp, dt);
    let s3 = crate::tick_s3(s, inp, dt);
    let s4 = crate::tick_s4(s, inp, dt);
    let s5 = crate::tick_s5(s, inp, dt);
    let s6 = tick_world(s, inp, dt);
    assert(forall|i: int| 0 <= i < s.len() ==> (#[trigger] s1[i]).finish == s[i].finish);
    assert(forall|i: int| 0 <= i < s.len() ==> (#[trigger] s2[i]).finish == s1[i].finish);
    assert(forall|i: int| 0 <= i < s.len() ==> ((#[trigger] s3[i]).finish is Some <==> s2[i].finish
        is Some) && (s3[i].finish is Some ==> s3[i].finish->Some_0.finish
        == s2[i].finish->Some_0.finish));
    lemma_first_matching_eq(s3, s, has_finish());
    crate::store::lemma_first_matching_is_first(s, has_finish());
    assert(s3[f].finish->Some_0.finish);
    assert(crate::finish_spawns(s3) =~= Seq::<Entity>::empty());
    assert(s4 =~= Seq::new(s3.len(), |i: int| crate::finish_flags_upd(s3, i)));
    assert(forall|i: int| 0 <= i < s.len() ==> ((#[trigger] s4[i]).finish is Some <==> s3[i].finish
        is Some));
    assert(s4[f].finish == s3[f].finish);
    assert(forall|i: int| 0 <= i < s.len() ==> (#[trigger] s5[i]).finish == s4[i].finish);
    assert(forall|i: int| 0 <= i < s.len() ==> (#[trigger] s6[i]).finish == s5[i].finish);
    lemma_first_matching_eq(s6, s, has_finish());
}

/// One-shot finish: however many ticks run after the run state latches,
/// not one further row — in particular no second overlay — is ever
/// spawned, and the run state stays latched.
pub proof fn lemma_one_shot_finish(s: Seq<Entity>, inp: Input, dt: int, n: nat)
    requires
        first_matching(s, has_finish()) >= 0,
        s[first_matching(s, has_finish())].finish->Some_0.finish,
    ensures
        iter_tick(s, inp, dt, n).0.len() == s.len(),
        first_matching(iter_tick(s, inp, dt, n).0, has_finish()) == first_matching(s, has_finish()),
        iter_tick(s, inp, dt, n).0[first_matching(s, has_finish())].finish->Some_0.finish,
    decreases n,
{
    if n > 0 {
        lemma_one_shot_finish(s, inp, dt, (n - 1) as nat);
        let p = iter_tick(s, inp, dt, (n - 1) as nat);
        lemma_tick_keeps_finished(p.0, p.1, dt);
    }
}

/// Crash precedence: when the run state is not yet latched and both the
/// crash flag and the zone condition hold in the same tick, the finish
/// pass spawns the crash overlay, never the success overlay.
pub proof fn lemma_crash_precedence(s: Seq<Entity>)
    requires
        first_matching(s, has_finish()) >= 0,
        !s[first_matching(s, has_finish())].finish->Some_0.finish,
        s[first_matching(s, has_finish())].finish->Some_0.crash,
        zone_hit(s),
    ensures
        finish_spawns(s) == overlay_ents("Crash..!", "Click to restart"),
{
}

} // verus!
