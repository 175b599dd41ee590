use vstd::prelude::*;
use vstd::arithmetic::div_mod::lemma_div_multiples_vanish;
use crate::fixed::{SCALE, div_trunc, div_trunc_i128, fxmul, isqrt, lemma_div_trunc_bound, sqrt_floor};
use crate::store::{Entity, World, all_in_bounds, dt_in_bounds};
use crate::dynamics::Velocity;
use crate::SpaceShip;

verus! {

/// Speed ceiling: a thrust or brake result at or above this magnitude is
/// discarded (raw steps per second; one thousand world units).
pub const MAX_SPEED: i64 = 1_000_000_000;

/// Acceleration added along the heading per second of held thrust.
pub const SPEED_INCREMENT: i64 = 1_000_000_000;

/// Deceleration applied along the heading per second of held brake.
pub const SPEED_DECREMENT: i64 = 600_000_000;

/// Fuel burned per second by each active control.
pub const FUEL_BURN: i64 = 10_000_000;

/// The normalized input snapshot, written by the host's event handlers
/// between ticks and read once per tick: last write wins, no queueing.
#[derive(Clone, Copy, PartialEq, Eq, Structural, Debug)]
pub struct Input {
    /// The thrust control is held.
    pub forward: bool,
    /// The brake control is held.
    pub brake: bool,
    /// The primary action fired since the last tick.
    pub click: bool,
}

impl Default for Input {
    /// The idle snapshot: nothing held, nothing clicked.
    fn default() -> (r: Input)
        ensures
            r == (Input { forward: false, brake: false, click: false }),
    {
        Input { forward: false, brake: false, click: false }
    }
}

/// Key code of the thrust key.
pub const KEY_W: u32 = 87;

/// Key code of the brake key.
pub const KEY_S: u32 = 83;

/// What one primary pointer press means, by screen region.
#[derive(Clone, Copy, PartialEq, Eq, Structural, Debug)]
pub enum ClickTarget {
    /// The back button: leave for the level select.
    LevelSelect,
    /// The restart button: reload the level.
    Restart,
    /// Anywhere outside the button bar: the primary action.
    Primary,
    /// Inside the button bar but on neither button: nothing.
    Ignored,
}

/// Where a primary press at a screen point (raw steps) lands: the back
/// button, the restart button beside it, dead space between them, or —
/// outside the button bar — the primary action.
pub open spec fn click_target_spec(x: i64, y: i64) -> ClickTarget {
    if 10_000_000 < y && y < 210_000_000 {
        if 10_000_000 < x && x < 110_000_000 {
            ClickTarget::LevelSelect
        } else if 110_000_000 < x && x < 210_000_000 {
            ClickTarget::Restart
        } else {
            ClickTarget::Ignored
        }
    } else {
        ClickTarget::Primary
    }
}

/// Resolve a primary pointer press to its meaning.
pub fn click_target(x: i64, y: i64) -> (r: ClickTarget)
    ensures
        r == click_target_spec(x, y),
{
    if 10_000_000 < y && y < 210_000_000 {
        if 10_000_000 < x && x < 110_000_000 {
            ClickTarget::LevelSelect
        } else if 110_000_000 < x && x < 210_000_000 {
            ClickTarget::Restart
        } else {
            ClickTarget::Ignored
        }
    } else {
        ClickTarget::Primary
    }
}

/// The snapshot after a pointer press or release at a screen point: over
/// the thrust pad it writes `forward`, over the brake pad `brake`,
/// elsewhere nothing.
pub open spec fn pad_update_spec(inp: Input, x: i64, y: i64, held: bool) -> Input {
    if 10_000_000 < x && x < 260_000_000 {
        Input {
            forward: if 500_000_000 < y && y < 692_000_000 {
                held
            } else {
                inp.forward
            },
            brake: if 692_000_000 < y && y < 784_000_000 {
                held
            } else {
                inp.brake
            },
            click: inp.click,
        }
    } else {
        inp
    }
}

/// Write a pointer press or release over the on-screen pads into the
/// snapshot.
pub fn pad_update(input: &mut Input, x: i64, y: i64, held: bool)
    ensures
        *final(input) == pad_update_spec(*old(input), x, y, held),
{
    if 10_000_000 < x && x < 260_000_000 {
        if 500_000_000 < y && y < 692_000_000 {
            input.forward = held;
        }
        if 692_000_000 < y && y < 784_000_000 {
            input.brake = held;
        }
    }
}

/// The snapshot after a key press or release: the thrust key writes
/// `forward`, the brake key `brake`, any other key nothing.
pub open spec fn key_update_spec(inp: Input, code: u32, held: bool) -> Input {
    if code == KEY_W {
        Input { forward: held, ..inp }
    } else if code == KEY_S {
        Input { brake: held, ..inp }
    } else {
        inp
    }
}

/// Write a key press or release into the snapshot.
pub fn key_update(input: &mut Input, code: u32, held: bool)
    ensures
        *final(input) == key_update_spec(*old(input), code, held),
{
    if code == KEY_W {
        input.forward = held;
    } else if code == KEY_S {
        input.brake = held;
    }
}

/// Squared magnitude of a velocity.
pub open spec fn speed_sq(vx: int, vy: int) -> int {
    vx * vx + vy * vy
}

/// x of the heading unit vector (scaled by `SCALE`) of a velocity: the
/// craft faces its direction of travel, and faces right when at rest.
pub open spec fn heading_x(vx: int, vy: int) -> int {
    if vx == 0 && vy == 0 {
        SCALE as int
    } else {
        div_trunc(vx * SCALE, sqrt_floor(speed_sq(vx, vy) as nat) as int)
    }
}

/// y of the heading unit vector, as `heading_x`.
pub open spec fn heading_y(vx: int, vy: int) -> int {
    if vx == 0 && vy == 0 {
        0
    } else {
        div_trunc(vy * SCALE, sqrt_floor(speed_sq(vx, vy) as nat) as int)
    }
}

/// Velocity change requested by the controls this tick, along x: thrust
/// pushes along the heading, brake pulls against it, both only while
/// there is fuel left.
pub open spec fn thrust_dvx(vx: int, vy: int, inp: Input, fuel: int, dt: int) -> int {
    let hx = heading_x(vx, vy);
    (if fuel > 0 && inp.forward { fxmul(fxmul(SPEED_INCREMENT as int, dt), hx) } else { 0 })
    - (if fuel > 0 && inp.brake { fxmul(fxmul(SPEED_DECREMENT as int, dt), hx) } else { 0 })
}

/// Velocity change requested along y, as `thrust_dvx`.
pub open spec fn thrust_dvy(vx: int, vy: int, inp: Input, fuel: int, dt: int) -> int {
    let hy = heading_y(vx, vy);
    (if fuel > 0 && inp.forward { fxmul(fxmul(SPEED_INCREMENT as int, dt), hy) } else { 0 })
    - (if fuel > 0 && inp.brake { fxmul(fxmul(SPEED_DECREMENT as int, dt), hy) } else { 0 })
}

/// Whether the requested velocity is committed: only while its magnitude
/// stays strictly below `MAX_SPEED`; otherwise the old velocity stands.
pub open spec fn cand_committed(cx: int, cy: int) -> bool {
    speed_sq(cx, cy) < (MAX_SPEED as int) * (MAX_SPEED as int)
}

/// The fuel left after this tick: each held control burns `FUEL_BURN`
/// per second while any fuel remains, even when the speed cap then
/// discards the request. An empty (or overdrawn) tank burns nothing.
pub open spec fn fuel_after(fuel: int, inp: Input, dt: int) -> int {
    if fuel > 0 {
        fuel - (if inp.forward { fxmul(FUEL_BURN as int, dt) } else { 0 })
            - (if inp.brake { fxmul(FUEL_BURN as int, dt) } else { 0 })
    } else {
        fuel
    }
}

/// Row `i` after the input pass: piloted movers get a refreshed heading,
/// the fuel burned, and the requested velocity when it clears the cap;
/// every other row is untouched.
pub open spec fn input_upd(s: Seq<Entity>, i: int, inp: Input, dt: int) -> Entity {
    if s[i].spaceship is Some && s[i].velocity is Some {
        let ship = s[i].spaceship->Some_0;
        let vel = s[i].velocity->Some_0;
        let vx = vel.x as int;
        let vy = vel.y as int;
        let cx = vx + thrust_dvx(vx, vy, inp, ship.fuel as int, dt);
        let cy = vy + thrust_dvy(vx, vy, inp, ship.fuel as int, dt);
        Entity {
            spaceship: Some(SpaceShip {
                heading_x: heading_x(vx, vy) as i64,
                heading_y: heading_y(vx, vy) as i64,
                fuel: fuel_after(ship.fuel as int, inp, dt) as i64,
                initial_fuel: ship.initial_fuel,
            }),
            velocity: Some(
                if cand_committed(cx, cy) {
                    Velocity { x: cx as i64, y: cy as i64 }
                } else {
                    vel
                },
            ),
            ..s[i]
        }
    } else {
        s[i]
    }
}

/// The whole store after one input pass.
pub open spec fn input_upd_world(s: Seq<Entity>, inp: Input, dt: int) -> Seq<Entity> {
    Seq::new(s.len(), |i: int| input_upd(s, i, inp, dt))
}

/// Each axis of a velocity is bounded by the integer square root of the
/// squared magnitude.
pub proof fn lemma_component_le_sqrt(vx: int, vy: int)
    ensures
        -(sqrt_floor(speed_sq(vx, vy) as nat) as int) <= vx <= sqrt_floor(speed_sq(vx, vy) as nat) as int,
        -(sqrt_floor(speed_sq(vx, vy) as nat) as int) <= vy <= sqrt_floor(speed_sq(vx, vy) as nat) as int,
{
    let n = speed_sq(vx, vy);
    assert(vx * vx >= 0 && vy * vy >= 0) by (nonlinear_arith);
    crate::fixed::lemma_sqrt_floor(n as nat);
    let r = sqrt_floor(n as nat) as int;
    assert(-r <= vx <= r && -r <= vy <= r) by (nonlinear_arith)
        requires
            vx * vx + vy * vy == n,
            vx * vx >= 0,
            vy * vy >= 0,
            r >= 0,
            n < (r + 1) * (r + 1),
    ;
}

/// The heading is a unit vector: each component is at most `SCALE`.
pub proof fn lemma_heading_bounded(vx: int, vy: int)
    ensures
        -(SCALE as int) <= heading_x(vx, vy) <= SCALE as int,
        -(SCALE as int) <= heading_y(vx, vy) <= SCALE as int,
{
    if vx == 0 && vy == 0 {
    } else {
        let n = speed_sq(vx, vy);
        assert(vx * vx >= 0 && vy * vy >= 0) by (nonlinear_arith);
        assert(n > 0) by (nonlinear_arith)
            requires vx * vx + vy * vy == n && !(vx == 0 && vy == 0),
        ;
        crate::fixed::lemma_sqrt_floor(n as nat);
        let r = sqrt_floor(n as nat) as int;
        assert(r > 0) by (nonlinear_arith)
            requires r >= 0 && n > 0 && n < (r + 1) * (r + 1),
        ;
        lemma_component_le_sqrt(vx, vy);
        assert(-(r * SCALE) <= vx * SCALE <= r * SCALE && -(r * SCALE) <= vy * SCALE
            <= r * SCALE) by (nonlinear_arith)
            requires
                -r <= vx <= r,
                -r <= vy <= r,
                SCALE == 1_000_000,
        ;
        lemma_div_trunc_bound(vx * SCALE, r * SCALE, r);
        lemma_div_trunc_bound(vy * SCALE, r * SCALE, r);
        lemma_div_multiples_vanish(SCALE as int, r);
    }
}

/// The input pass keeps every row in range: a committed velocity is
/// below the speed cap, and burning never raises the fuel.
pub proof fn lemma_input_upd_in_bounds(s: Seq<Entity>, inp: Input, dt: int)
    requires
        all_in_bounds(s),
        0 <= dt <= crate::DT_LIMIT as int,
    ensures
        all_in_bounds(input_upd_world(s, inp, dt)),
{
    assert forall|i: int| 0 <= i < input_upd_world(s, inp, dt).len() implies
        (#[trigger] input_upd_world(s, inp, dt)[i]).in_bounds() by {
        assert(s[i].in_bounds());
        if s[i].spaceship is Some && s[i].velocity is Some {
            let ship = s[i].spaceship->Some_0;
            let vel = s[i].velocity->Some_0;
            let vx = vel.x as int;
            let vy = vel.y as int;
            lemma_heading_bounded(vx, vy);
            assert(0 <= fxmul(FUEL_BURN as int, dt) <= FUEL_BURN as int) by {
                assert((FUEL_BURN as int) * dt <= 10_000_000_000_000
                    && (FUEL_BURN as int) * dt >= 0) by (nonlinear_arith)
                    requires 0 <= dt <= 1_000_000,
                ;
                lemma_div_trunc_bound((FUEL_BURN as int) * dt, 10_000_000_000_000, SCALE as int);
                assert(10_000_000_000_000int / 1_000_000int == 10_000_000) by (nonlinear_arith);
            }
            let cx = vx + thrust_dvx(vx, vy, inp, ship.fuel as int, dt);
            let cy = vy + thrust_dvy(vx, vy, inp, ship.fuel as int, dt);
            if cand_committed(cx, cy) {
                assert(-1_000_000_000 <= cx <= 1_000_000_000
                    && -1_000_000_000 <= cy <= 1_000_000_000) by (nonlinear_arith)
                    requires
                        cx * cx + cy * cy < 1_000_000_000_000_000_000,
                ;
            }
        }
    }
}

/// Refresh the heading of every piloted mover from its velocity, then
/// apply held thrust and brake: burn fuel for each active control while
/// fuel remains, and commit the pushed velocity only while its magnitude
/// stays strictly below `MAX_SPEED`.
pub fn system_spacecraft_input(world: &mut World, input: &Input, delta: i64)
    requires
        all_in_bounds(old(world).ents@),
        dt_in_bounds(delta),
    ensures
        final(world).ents@.len() == old(world).ents@.len(),
        forall|i: int| 0 <= i < old(world).ents@.len() ==>
            final(world).ents@[i] == input_upd(old(world).ents@, i, *input, delta as int),
{
    let ghost s0 = world.ents@;
    let n = world.ents.len();
    let mut j: usize = 0;
    while j < n
        invariant
            j <= n == s0.len(),
            world.ents@.len() == s0.len(),
            all_in_bounds(s0),
            dt_in_bounds(delta),
            forall|k: int| 0 <= k < j ==>
                world.ents@[k] == input_upd(s0, k, *input, delta as int),
            forall|k: int| j <= k < n ==> world.ents@[k] == s0[k],
        decreases n - j,
    {
        let e: Entity = world.ents[j];
        if e.spaceship.is_some() && e.velocity.is_some() {
            let ship = e.spaceship.unwrap();
            let vel = e.velocity.unwrap();
            proof {
                assert(s0[j as int].in_bounds());
                assert((vel.x as i128) * (vel.x as i128) >= 0
                    && (vel.x as i128) * (vel.x as i128) <= 1_000_000_000_000_000_000_000_000) by (nonlinear_arith)
                    requires -1_000_000_000_000 <= vel.x as i128 <= 1_000_000_000_000,
                ;
                assert((vel.y as i128) * (vel.y as i128) >= 0
                    && (vel.y as i128) * (vel.y as i128) <= 1_000_000_000_000_000_000_000_000) by (nonlinear_arith)
                    requires -1_000_000_000_000 <= vel.y as i128 <= 1_000_000_000_000,
                ;
            }
            let n2: u128 = ((vel.x as i128) * (vel.x as i128) + (vel.y as i128) * (vel.y as i128)) as u128;
            let r: u64 = isqrt(n2);
            let hx: i64;
            let hy: i64;
            if r == 0 {
                proof {
                    assert(1nat * 1nat == 1) by (nonlinear_arith);
                    assert(n2 == 0);
                    assert(vel.x == 0 && vel.y == 0) by (nonlinear_arith)
                        requires
                            (vel.x as int) * (vel.x as int) + (vel.y as int) * (vel.y as int) == 0,
                    ;
                }
                hx = SCALE;
                hy = 0;
            } else {
                proof {
                    lemma_heading_bounded(vel.x as int, vel.y as int);
                    lemma_component_le_sqrt(vel.x as int, vel.y as int);
                    assert((vel.x as i128) * (SCALE as i128) <= 0x7fffffffffffffffffffffffffffffff
                        && (vel.x as i128) * (SCALE as i128) >= -0x7fffffffffffffffffffffffffffffff) by (nonlinear_arith)
                        requires -1_000_000_000_000 <= vel.x as i128 <= 1_000_000_000_000,
                    ;
                    assert((vel.y as i128) * (SCALE as i128) <= 0x7fffffffffffffffffffffffffffffff
                        && (vel.y as i128) * (SCALE as i128) >= -0x7fffffffffffffffffffffffffffffff) by (nonlinear_arith)
                        requires -1_000_000_000_000 <= vel.y as i128 <= 1_000_000_000_000,
                    ;
                }
                let qx: i128 = div_trunc_i128((vel.x as i128) * (SCALE as i128), r as i128);
                let qy: i128 = div_trunc_i128((vel.y as i128) * (SCALE as i128), r as i128);
                proof {
                    assert(n2 as int == speed_sq(vel.x as int, vel.y as int));
                    assert(r as int == sqrt_floor(speed_sq(vel.x as int, vel.y as int) as nat) as int);
                    assert(qx == div_trunc((vel.x as int) * (SCALE as int), r as int));
                    assert(!(vel.x == 0 && vel.y == 0)) by {
                        if vel.x == 0 && vel.y == 0 {
                            assert(speed_sq(0, 0) == 0) by (nonlinear_arith);
                        }
                    }
                    assert(heading_x(vel.x as int, vel.y as int) == div_trunc(
                        (vel.x as int) * SCALE,
                        sqrt_floor(speed_sq(vel.x as int, vel.y as int) as nat) as int,
                    ));
                    assert(qx == heading_x(vel.x as int, vel.y as int));
                    assert(qy == heading_y(vel.x as int, vel.y as int));
                    assert(-1_000_000 <= qx <= 1_000_000 && -1_000_000 <= qy <= 1_000_000);
                }
                hx = qx as i64;
                hy = qy as i64;
            }
            proof {
                assert(hx == heading_x(vel.x as int, vel.y as int));
                assert(hy == heading_y(vel.x as int, vel.y as int));
                lemma_heading_bounded(vel.x as int, vel.y as int);
            }

            let has_fuel = ship.fuel > 0;
            let mut cx: i64 = vel.x;
            let mut cy: i64 = vel.y;
            let mut nf: i64 = ship.fuel;
            if has_fuel && input.forward {
                let t = fmul_bounded(SPEED_INCREMENT, delta);
                cx = cx + fmul_unit(t, hx);
                cy = cy + fmul_unit(t, hy);
                nf = nf - fmul_bounded(FUEL_BURN, delta);
            }
            if has_fuel && input.brake {
                let t = fmul_bounded(SPEED_DECREMENT, delta);
                cx = cx - fmul_unit(t, hx);
                cy = cy - fmul_unit(t, hy);
                nf = nf - fmul_bounded(FUEL_BURN, delta);
            }
            proof {
                assert(cx == vel.x + thrust_dvx(vel.x as int, vel.y as int, *input, ship.fuel as int, delta as int));
                assert(cy == vel.y + thrust_dvy(vel.x as int, vel.y as int, *input, ship.fuel as int, delta as int));
                assert(nf == fuel_after(ship.fuel as int, *input, delta as int));
                assert((cx as i128) * (cx as i128) >= 0
                    && (cx as i128) * (cx as i128) <= 2_000_000_000_000_000_000_000_000) by (nonlinear_arith)
                    requires -1_100_000_000_000 <= cx as i128 <= 1_100_000_000_000,
                ;
                assert((cy as i128) * (cy as i128) >= 0
                    && (cy as i128) * (cy as i128) <= 2_000_000_000_000_000_000_000_000) by (nonlinear_arith)
                    requires -1_100_000_000_000 <= cy as i128 <= 1_100_000_000_000,
                ;
            }
            let c2: i128 = (cx as i128) * (cx as i128) + (cy as i128) * (cy as i128);
            let nvel: Velocity = if c2 < (MAX_SPEED as i128) * (MAX_SPEED as i128) {
                Velocity { x: cx, y: cy }
            } else {
                vel
            };
            world.ents[j] = Entity {
                spaceship: Some(SpaceShip {
                    heading_x: hx,
                    heading_y: hy,
                    fuel: nf,
                    initial_fuel: ship.initial_fuel,
                }),
                velocity: Some(nvel),
                ..e
            };
        }
        j += 1;
    }
}

/// `fxmul` of two controls-range values: a rate below `2 * MAX_SPEED`
/// times a time step. The product stays below `2 * MAX_SPEED`.
fn fmul_bounded(rate: i64, delta: i64) -> (r: i64)
    requires
        0 <= rate <= 2_000_000_000,
        dt_in_bounds(delta),
    ensures
        r == fxmul(rate as int, delta as int),
        0 <= r <= 2_000_000_000,
{
    proof {
        assert((rate as int) * (delta as int) <= 2_000_000_000_000_000
            && (rate as int) * (delta as int) >= 0) by (nonlinear_arith)
            requires
                0 <= rate <= 2_000_000_000,
                0 <= delta <= 1_000_000,
        ;
        lemma_div_trunc_bound((rate as int) * (delta as int), 2_000_000_000_000_000, SCALE as int);
        assert(2_000_000_000_000_000int / 1_000_000int == 2_000_000_000) by (nonlinear_arith);
    }
    crate::fixed::fmul(rate, delta)
}

/// `fxmul` of a bounded rate and a heading component: the result keeps
/// the rate's bound.
fn fmul_unit(t: i64, h: i64) -> (r: i64)
    requires
        0 <= t <= 2_000_000_000,
        -SCALE <= h <= SCALE,
    ensures
        r == fxmul(t as int, h as int),
        -2_000_000_000 <= r <= 2_000_000_000,
{
    proof {
        assert(-2_000_000_000_000_000 <= (t as int) * (h as int) <= 2_000_000_000_000_000) by (nonlinear_arith)
            requires
                0 <= t <= 2_000_000_000,
                -1_000_000 <= h <= 1_000_000,
        ;
        lemma_div_trunc_bound((t as int) * (h as int), 2_000_000_000_000_000, SCALE as int);
        assert(2_000_000_000_000_000int / 1_000_000int == 2_000_000_000) by (nonlinear_arith);
    }
    crate::fixed::fmul(t, h)
}

} // verus!
