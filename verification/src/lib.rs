use vstd::prelude::*;

use crate::dynamics::Position;
use crate::input::Input;
use crate::renderer::Renderer;
use crate::store::{Entity, World, all_in_bounds, first_matching,
    lemma_first_matching_found, lemma_first_matching_none};

pub mod dynamics;
pub mod fixed;
pub mod hud;
pub mod input;
pub mod laws;
pub mod levels;
pub mod renderer;
pub mod store;

verus! {

/// Largest coordinate magnitude the simulation admits, in raw steps
/// (one million world units).
pub const COORD_LIMIT: i64 = 1_000_000_000_000;

/// Largest velocity magnitude per axis, in raw steps per second.
pub const VEL_LIMIT: i64 = 1_000_000_000_000;

/// Largest attracting mass, in raw steps (one thousand world units).
pub const MASS_LIMIT: i64 = 1_000_000_000;

/// Largest collision radius, in raw steps.
pub const RADIUS_LIMIT: i64 = 1_000_000_000_000;

/// Largest fuel amount, in raw steps.
pub const FUEL_LIMIT: i64 = 1_000_000_000_000;

/// Largest time step a single tick may integrate, in raw steps of a
/// second (one full second).
pub const DT_LIMIT: i64 = 1_000_000;

/// The piloted craft: a heading unit vector (scaled by `fixed::SCALE`,
/// derived each tick from the velocity), the fuel left, and the capacity
/// the tank started with.
#[derive(Clone, Copy, PartialEq, Eq, Structural, Debug)]
pub struct SpaceShip {
    pub heading_x: i64,
    pub heading_y: i64,
    pub fuel: i64,
    pub initial_fuel: i64,
}

/// The goal area: an axis-aligned box whose top-left corner is the
/// entity's position.
#[derive(Clone, Copy, PartialEq, Eq, Structural, Debug)]
pub struct EndZone {
    pub width: i64,
    pub height: i64,
}

/// The run state singleton: `finish` latches when the level ends,
/// `crash` records that it ended against a celestial body.
#[derive(Clone, Copy, PartialEq, Eq, Structural, Debug, Default)]
pub struct Finish {
    pub finish: bool,
    pub crash: bool,
}

/// What the host must do after the finish pass: nothing, record the
/// cleared level and leave for the level select, or reload the level.
#[derive(Clone, Copy, PartialEq, Eq, Structural, Debug)]
pub enum FinishAction {
    Idle,
    Advance,
    Reload,
}

/// Margin by which the end zone shrinks before the containment test: the
/// craft must be well inside, not merely touching.
pub const ZONE_INSET: i64 = 20_000_000;

/// Whether a point lies strictly inside the inset interior of a zone box
/// whose top-left corner is `(zx, zy)`.
pub open spec fn in_zone_inset(px: int, py: int, zx: int, zy: int, w: int, h: int) -> bool {
    &&& zx + ZONE_INSET < px
    &&& px < zx + w - ZONE_INSET
    &&& zy + ZONE_INSET < py
    &&& py < zy + h - ZONE_INSET
}

/// Whether ship `i` sits strictly inside the inset interior of zone `j`.
pub open spec fn ship_in_zone(s: Seq<Entity>, i: int, j: int) -> bool {
    &&& s[i].is_ship()
    &&& s[j].end_zone is Some
    &&& s[j].position is Some
    &&& in_zone_inset(
        s[i].position->Some_0.x as int,
        s[i].position->Some_0.y as int,
        s[j].position->Some_0.x as int,
        s[j].position->Some_0.y as int,
        s[j].end_zone->Some_0.width as int,
        s[j].end_zone->Some_0.height as int,
    )
}

/// Whether any ship sits inside any end zone.
pub open spec fn zone_hit(s: Seq<Entity>) -> bool {
    exists|i: int, j: int| 0 <= i < s.len() && 0 <= j < s.len() && ship_in_zone(s, i, j)
}

/// The rows that carry the run state.
pub open spec fn has_finish() -> spec_fn(Entity) -> bool {
    |e: Entity| e.finish is Some
}

/// Row `i` after the finish pass: an unfinished run state latches
/// `finish` when the craft crashed earlier this tick or sits in an end
/// zone; every other row is untouched.
pub open spec fn finish_flags_upd(s: Seq<Entity>, i: int) -> Entity {
    match s[i].finish {
        Some(fi) => {
            if !fi.finish && (fi.crash || zone_hit(s)) {
                Entity { finish: Some(Finish { finish: true, crash: fi.crash }), ..s[i] }
            } else {
                s[i]
            }
        },
        None => s[i],
    }
}

/// The three rows of a finish overlay: a headline, its backdrop panel,
/// and a prompt line, all in screen space above everything else.
pub open spec fn overlay_ents(headline: &'static str, prompt: &'static str) -> Seq<Entity> {
    seq![
        Entity {
            position: Some(Position { x: 590_000_000, y: 350_000_000 }),
            renderer: Some(Renderer::TextRenderer {
                text: headline,
                color: "white",
                font: "40px Tsoonami",
                z: 10,
                fixed: true,
            }),
            ..Entity::spec_new()
        },
        Entity {
            position: Some(Position { x: 585_000_000, y: 310_000_000 }),
            renderer: Some(Renderer::RectRenderer {
                width: 230_000_000,
                height: 75_000_000,
                color: "#1b1b1b",
                z: 9,
                fixed: true,
            }),
            ..Entity::spec_new()
        },
        Entity {
            position: Some(Position { x: 610_000_000, y: 375_000_000 }),
            renderer: Some(Renderer::TextRenderer {
                text: prompt,
                color: "white",
                font: "14px Tsoonami",
                z: 10,
                fixed: true,
            }),
            ..Entity::spec_new()
        },
    ]
}

/// The rows the finish pass appends: exactly one overlay, spawned on the
/// tick the first run state latches; a crash takes precedence over a
/// simultaneous zone entry.
pub open spec fn finish_spawns(s: Seq<Entity>) -> Seq<Entity> {
    let f = first_matching(s, has_finish());
    if f >= 0 {
        let fi = s[f].finish->Some_0;
        if !fi.finish && fi.crash {
            overlay_ents("Crash..!", "Click to restart")
        } else if !fi.finish && zone_hit(s) {
            overlay_ents("Success!", "Click to continue")
        } else {
            Seq::empty()
        }
    } else {
        Seq::empty()
    }
}

/// What the host must do for the primary action this tick: after a
/// cleared run a click advances, after a crashed run it reloads.
pub open spec fn finish_action(s: Seq<Entity>, inp: Input) -> FinishAction {
    let f = first_matching(s, has_finish());
    if f >= 0 {
        let fi = s[f].finish->Some_0;
        if fi.finish && inp.click && !fi.crash {
            FinishAction::Advance
        } else if fi.finish && inp.click && fi.crash {
            FinishAction::Reload
        } else {
            FinishAction::Idle
        }
    } else {
        FinishAction::Idle
    }
}

/// The click flag after the finish pass: consumed by the tick that ends
/// the run and by any tick that acts on it.
pub open spec fn finish_new_click(s: Seq<Entity>, inp: Input) -> bool {
    let f = first_matching(s, has_finish());
    if f >= 0 {
        let fi = s[f].finish->Some_0;
        if !fi.finish {
            if fi.crash || zone_hit(s) {
                false
            } else {
                inp.click
            }
        } else if inp.click {
            false
        } else {
            inp.click
        }
    } else {
        inp.click
    }
}

/// Spawn the three overlay rows for the given headline and prompt.
fn spawn_overlay(world: &mut World, headline: &'static str, prompt: &'static str)
    ensures
        final(world).ents@ == old(world).ents@ + overlay_ents(headline, prompt),
{
    let mut text = Renderer::text(headline, "white", "40px Tsoonami");
    text.set_fixed(true);
    text.set_z(10);
    let mut rect = Renderer::rect(230_000_000, 75_000_000, "#1b1b1b");
    rect.set_fixed(true);
    rect.set_z(9);
    let mut click_text = Renderer::text(prompt, "white", "14px Tsoonami");
    click_text.set_fixed(true);
    click_text.set_z(10);
    let mut e = Entity::new();
    e.position = Some(Position { x: 590_000_000, y: 350_000_000 });
    e.renderer = Some(text);
    world.spawn(e);
    let mut p = Entity::new();
    p.position = Some(Position { x: 585_000_000, y: 310_000_000 });
    p.renderer = Some(rect);
    world.spawn(p);
    let mut t = Entity::new();
    t.position = Some(Position { x: 610_000_000, y: 375_000_000 });
    t.renderer = Some(click_text);
    world.spawn(t);
    proof {
        assert(final(world).ents@ =~= old(world).ents@ + overlay_ents(headline, prompt));
    }
}

/// Latch the run state and spawn the one-shot finish overlay. A crash
/// recorded earlier this tick wins over a simultaneous zone entry; once
/// the run state is latched nothing is spawned again. Consumes the click
/// that ends a run, and turns a click on an ended run into the action the
/// host must take.
pub fn system_finish(world: &mut World, input: &mut Input) -> (action: FinishAction)
    requires
        all_in_bounds(old(world).ents@),
    ensures
        final(world).ents@ == Seq::new(old(world).ents@.len(), |i: int| finish_flags_upd(old(world).ents@, i))
            + finish_spawns(old(world).ents@),
        *final(input) == (Input { click: finish_new_click(old(world).ents@, *old(input)), ..*old(input) }),
        action == finish_action(old(world).ents@, *old(input)),
{
    let ghost s0 = world.ents@;
    let n = world.ents.len();

    let mut zh = false;
    let mut i: usize = 0;
    while i < n
        invariant
            i <= n == s0.len(),
            world.ents@ == s0,
            all_in_bounds(s0),
            zh == exists|a: int, b: int| 0 <= a < i && 0 <= b < n && ship_in_zone(s0, a, b),
        decreases n - i,
    {
        let e = &world.ents[i];
        if e.spaceship.is_some() && e.position.is_some() {
            let sp = e.position.unwrap();
            let ghost zh0 = zh;
            let mut j: usize = 0;
            while j < n
                invariant
                    j <= n == s0.len(),
                    i < n,
                    world.ents@ == s0,
                    all_in_bounds(s0),
                    s0[i as int].is_ship(),
                    sp == s0[i as int].position->Some_0,
                    zh == (zh0 || exists|b: int| 0 <= b < j && ship_in_zone(s0, i as int, b)),
                decreases n - j,
            {
                let z = &world.ents[j];
                if z.end_zone.is_some() && z.position.is_some() {
                    let zp = z.position.unwrap();
                    let zl = z.end_zone.unwrap();
                    proof {
                        assert(s0[i as int].in_bounds());
                        assert(s0[j as int].in_bounds());
                    }
                    if zp.x + ZONE_INSET < sp.x && sp.x < zp.x + zl.width - ZONE_INSET
                        && zp.y + ZONE_INSET < sp.y && sp.y < zp.y + zl.height - ZONE_INSET {
                        zh = true;
                        proof {
                            assert(ship_in_zone(s0, i as int, j as int));
                        }
                    } else {
                        proof {
                            assert(!ship_in_zone(s0, i as int, j as int));
                        }
                    }
                } else {
                    proof {
                        assert(!ship_in_zone(s0, i as int, j as int));
                    }
                }
                j += 1;
            }
        }
        i += 1;
    }

    let mut found = false;
    let mut state = Finish { finish: false, crash: false };
    let mut k: usize = 0;
    while k < n
        invariant
            k <= n == s0.len(),
            world.ents@ == s0,
            !found ==> forall|q: int| 0 <= q < k ==> !(has_finish())(#[trigger] s0[q]),
            found ==> {
                &&& first_matching(s0, has_finish()) >= 0
                &&& state == s0[first_matching(s0, has_finish())].finish->Some_0
            },
        decreases n - k,
    {
        if !found {
            let e = &world.ents[k];
            if let Some(fi) = e.finish {
                state = fi;
                found = true;
                proof {
                    lemma_first_matching_found(s0, has_finish(), k as int);
                }
            }
        }
        k += 1;
    }

    let mut action = FinishAction::Idle;
    if !found {
        proof {
            lemma_first_matching_none(s0, has_finish());
            assert(world.ents@ =~= Seq::new(s0.len(), |i: int| finish_flags_upd(s0, i))
                + finish_spawns(s0));
        }
        return action;
    }

    let mut q: usize = 0;
    while q < n
        invariant
            q <= n == s0.len(),
            world.ents@.len() == s0.len(),
            zh == zone_hit(s0),
            forall|w: int| 0 <= w < q ==> world.ents@[w] == finish_flags_upd(s0, w),
            forall|w: int| q <= w < n ==> world.ents@[w] == s0[w],
        decreases n - q,
    {
        let e: Entity = world.ents[q];
        if let Some(fi) = e.finish {
            if !fi.finish && (fi.crash || zh) {
                world.ents[q] = Entity {
                    finish: Some(Finish { finish: true, crash: fi.crash }),
                    ..e
                };
            }
        }
        q += 1;
    }

    if !state.finish && state.crash {
        spawn_overlay(world, "Crash..!", "Click to restart");
        input.click = false;
    } else if !state.finish && zh {
        spawn_overlay(world, "Success!", "Click to continue");
        input.click = false;
    } else if state.finish && input.click && !state.crash {
        action = FinishAction::Advance;
        input.click = false;
    } else if state.finish && input.click && state.crash {
        action = FinishAction::Reload;
        input.click = false;
    }
    proof {
        assert(world.ents@ =~= Seq::new(s0.len(), |i: int| finish_flags_upd(s0, i))
            + finish_spawns(s0));
    }
    action
}

/// The whole store after one finish pass: flags latched, then the
/// overlay of the tick's outcome.
pub open spec fn finish_upd_world(s: Seq<Entity>) -> Seq<Entity> {
    Seq::new(s.len(), |i: int| finish_flags_upd(s, i)) + finish_spawns(s)
}

/// The finish pass only latches flags and appends screen-space overlay
/// rows, so it keeps every row in range.
pub proof fn lemma_finish_upd_in_bounds(s: Seq<Entity>)
    requires
        all_in_bounds(s),
    ensures
        all_in_bounds(finish_upd_world(s)),
{
    let r = finish_upd_world(s);
    assert forall|i: int| 0 <= i < r.len() implies (#[trigger] r[i]).in_bounds() by {
        if i < s.len() {
            assert(s[i].in_bounds());
            assert(r[i] == finish_flags_upd(s, i));
        } else {
            assert(r[i] == finish_spawns(s)[i - s.len()]);
        }
    }
}

/// How long a tick may last before the driver freezes the simulation for
/// that frame: a tenth of a second, in raw steps.
pub const TICK_SKIP_LIMIT: i64 = 100_000;

/// The store after the input pass of a tick.
pub open spec fn tick_s1(s: Seq<Entity>, inp: Input, dt: int) -> Seq<Entity> {
    crate::input::input_upd_world(s, inp, dt)
}

/// The store after the gravity pass of a tick.
pub open spec fn tick_s2(s: Seq<Entity>, inp: Input, dt: int) -> Seq<Entity> {
    crate::dynamics::gravity_upd_world(tick_s1(s, inp, dt), dt)
}

/// The store after the crash pass of a tick.
pub open spec fn tick_s3(s: Seq<Entity>, inp: Input, dt: int) -> Seq<Entity> {
    crate::dynamics::crash_upd_world(tick_s2(s, inp, dt))
}

/// The store after the finish pass of a tick.
pub open spec fn tick_s4(s: Seq<Entity>, inp: Input, dt: int) -> Seq<Entity> {
    finish_upd_world(tick_s3(s, inp, dt))
}

/// The store after the HUD pass of a tick.
pub open spec fn tick_s5(s: Seq<Entity>, inp: Input, dt: int) -> Seq<Entity> {
    crate::hud::hud_upd_world(tick_s4(s, inp, dt))
}

/// The store after a full tick: input, gravity, crash, finish, HUD,
/// camera, in that fixed order.
pub open spec fn tick_world(s: Seq<Entity>, inp: Input, dt: int) -> Seq<Entity> {
    crate::renderer::offset_upd_world(tick_s5(s, inp, dt))
}

/// The input snapshot after a full tick: the finish pass may consume the
/// click, judged against the store it saw.
pub open spec fn tick_input(s: Seq<Entity>, inp: Input, dt: int) -> Input {
    Input { click: finish_new_click(tick_s3(s, inp, dt), inp), ..inp }
}

/// The host action of a full tick, judged by the finish pass.
pub open spec fn tick_action(s: Seq<Entity>, inp: Input, dt: int) -> FinishAction {
    finish_action(tick_s3(s, inp, dt), inp)
}

/// The machine-width condition of a full tick: the gravity pass must
/// integrate into the raw range, and what it produces must lie within
/// the simulation's bounds for the passes that follow.
pub open spec fn tick_fits(s: Seq<Entity>, inp: Input, dt: int) -> bool {
    &&& all_in_bounds(s)
    &&& crate::dynamics::gravity_fits(tick_s1(s, inp, dt), dt)
    &&& all_in_bounds(tick_s2(s, inp, dt))
}

/// What one tick hands back to the host: whether the pipeline ran, the
/// action the finish pass chose, and the frame to paint.
pub struct TickOutput {
    pub ran: bool,
    pub action: FinishAction,
    pub frame: crate::renderer::RenderOut,
}

/// Advance the simulation by one frame: run input, gravity, crash,
/// finish, HUD and camera in their fixed order, then compose the frame.
/// A tick of `TICK_SKIP_LIMIT` or longer (a backgrounded tab) freezes
/// the world for that frame and paints nothing: a protective no-op.
pub fn tick(world: &mut World, input: &mut Input, delta: i64, dims: &Vec<crate::renderer::SpriteDim>)
    -> (out: TickOutput)
    requires
        0 <= delta,
        delta < TICK_SKIP_LIMIT ==> tick_fits(old(world).ents@, *old(input), delta as int),
    ensures
        delta >= TICK_SKIP_LIMIT ==> {
            &&& !out.ran
            &&& final(world).ents@ == old(world).ents@
            &&& *final(input) == *old(input)
            &&& out.action == FinishAction::Idle
        },
        delta < TICK_SKIP_LIMIT ==> {
            &&& out.ran
            &&& final(world).ents@ == tick_world(old(world).ents@, *old(input), delta as int)
            &&& *final(input) == tick_input(old(world).ents@, *old(input), delta as int)
            &&& out.action == tick_action(old(world).ents@, *old(input), delta as int)
            &&& crate::renderer::frame_matches(
                out.frame,
                tick_world(old(world).ents@, *old(input), delta as int),
                dims@,
            )
        },
{
    if delta >= TICK_SKIP_LIMIT {
        return TickOutput {
            ran: false,
            action: FinishAction::Idle,
            frame: crate::renderer::RenderOut {
                cmds: Vec::new(),
                ships: Vec::new(),
                missing: Vec::new(),
            },
        };
    }
    let ghost s0 = world.ents@;
    let ghost inp0 = *input;

    crate::input::system_spacecraft_input(world, input, delta);
    proof {
        assert(world.ents@ =~= tick_s1(s0, inp0, delta as int));
        crate::input::lemma_input_upd_in_bounds(s0, inp0, delta as int);
    }

    crate::dynamics::system_gravity(world, delta);
    proof {
        assert(world.ents@ =~= tick_s2(s0, inp0, delta as int));
    }

    crate::dynamics::system_crash(world);
    proof {
        assert(world.ents@ =~= tick_s3(s0, inp0, delta as int));
        crate::dynamics::lemma_crash_upd_in_bounds(tick_s2(s0, inp0, delta as int));
    }

    let ghost s3 = world.ents@;
    let action = system_finish(world, input);
    proof {
        assert(world.ents@ =~= tick_s4(s0, inp0, delta as int));
        lemma_finish_upd_in_bounds(s3);
    }

    crate::hud::system_hud(world);
    proof {
        assert(world.ents@ =~= tick_s5(s0, inp0, delta as int));
        crate::hud::lemma_hud_upd_in_bounds(tick_s4(s0, inp0, delta as int));
    }

    crate::renderer::system_offset(world);
    proof {
        assert(world.ents@ =~= tick_world(s0, inp0, delta as int));
        crate::renderer::lemma_offset_upd_in_bounds(tick_s5(s0, inp0, delta as int));
    }

    let frame = crate::renderer::system_renderer(world, dims);
    TickOutput { ran: true, action, frame }
}

/// Advance the simulation by one frame, deciding `tick`'s machine-width
/// condition at run time: a host that cannot establish `tick_fits` calls
/// this instead. `None` reports a store that one tick would integrate
/// outside the simulation's range; the store and snapshot are then left
/// exactly as they were.
pub fn try_tick(
    world: &mut World,
    input: &mut Input,
    delta: i64,
    dims: &Vec<crate::renderer::SpriteDim>,
) -> (r: Option<TickOutput>)
    requires
        0 <= delta,
    ensures
        (r is Some) == (delta >= TICK_SKIP_LIMIT || tick_fits(
            old(world).ents@,
            *old(input),
            delta as int,
        )),
        r is None ==> final(world).ents@ == old(world).ents@ && *final(input) == *old(input),
        r is Some && delta >= TICK_SKIP_LIMIT ==> {
            &&& !r->Some_0.ran
            &&& final(world).ents@ == old(world).ents@
            &&& *final(input) == *old(input)
            &&& r->Some_0.action == FinishAction::Idle
        },
        r is Some && delta < TICK_SKIP_LIMIT ==> {
            &&& r->Some_0.ran
            &&& final(world).ents@ == tick_world(old(world).ents@, *old(input), delta as int)
            &&& *final(input) == tick_input(old(world).ents@, *old(input), delta as int)
            &&& r->Some_0.action == tick_action(old(world).ents@, *old(input), delta as int)
            &&& crate::renderer::frame_matches(
                r->Some_0.frame,
                tick_world(old(world).ents@, *old(input), delta as int),
                dims@,
            )
        },
{
    if delta >= TICK_SKIP_LIMIT {
        return Some(tick(world, input, delta, dims));
    }
    if !world.check_in_bounds() {
        return None;
    }
    let snap: Input = *input;
    let mut probe = world.duplicate();
    crate::input::system_spacecraft_input(&mut probe, &snap, delta);
    proof {
        assert(probe.ents@ =~= tick_s1(old(world).ents@, snap, delta as int));
        crate::input::lemma_input_upd_in_bounds(old(world).ents@, snap, delta as int);
    }
    if !crate::dynamics::check_gravity_step(&probe, delta) {
        return None;
    }
    Some(tick(world, input, delta, dims))
}

/// The stored progress rule: completing a level unlocks the next one only
/// when the completed level was the furthest unlocked.
pub fn next_max_level(level: i32, max_level: i32) -> (r: i32)
    requires
        max_level == level ==> level < i32::MAX,
    ensures
        r == if max_level == level { level + 1 } else { max_level as int },
{
    if max_level == level {
        level + 1
    } else {
        max_level
    }
}

} // verus!
