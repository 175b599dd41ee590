use vstd::prelude::*;
use crate::dynamics::Velocity;
use crate::fixed::SCALE;
use crate::hud::hud_ents;
use crate::store::{Entity, World};
use crate::{COORD_LIMIT, FUEL_LIMIT, MASS_LIMIT, RADIUS_LIMIT, VEL_LIMIT};
use self::common::{background_ent, end_zone_ent, planet_ent, spaceship_ent, text_ent};

pub mod common;
pub mod level1;
pub mod level2;
pub mod level3;
pub mod level4;

verus! {

/// A planet kind of the configuration: its sprite, collision radius,
/// attracting mass, and whether placements of it stand still.
#[derive(Clone, Copy, PartialEq, Eq, Structural, Debug)]
pub struct PlanetDef {
    pub id: u32,
    pub sprite: u32,
    pub radius: i64,
    pub mass: i64,
    pub fix: bool,
}

/// One placed planet: which kind, and where.
#[derive(Clone, Copy, PartialEq, Eq, Structural, Debug)]
pub struct PlanetPlacement {
    pub planet: u32,
    pub x: i64,
    pub y: i64,
}

/// One caption of a level.
#[derive(Clone, Copy, Debug)]
pub struct TextSpec {
    pub text: &'static str,
    pub color: &'static str,
    pub style: &'static str,
    pub x: i64,
    pub y: i64,
}

/// The craft's starting placement.
#[derive(Clone, Copy, PartialEq, Eq, Structural, Debug)]
pub struct SpaceShipSpec {
    pub x: i64,
    pub y: i64,
    pub vx: i64,
    pub vy: i64,
    pub fuel: i64,
}

/// The end zone's center.
#[derive(Clone, Copy, PartialEq, Eq, Structural, Debug)]
pub struct EndSpec {
    pub x: i64,
    pub y: i64,
}

/// One level of the configuration.
pub struct WorldSpec {
    pub id: i32,
    pub background: bool,
    pub planets: Vec<PlanetPlacement>,
    pub texts: Vec<TextSpec>,
    pub spaceship: SpaceShipSpec,
    pub end: EndSpec,
}

/// The whole level configuration: levels and the planet kinds they
/// reference.
pub struct Root {
    pub worlds: Vec<WorldSpec>,
    pub planets: Vec<PlanetDef>,
}

/// Why a level configuration is rejected. Any of these is fatal at load:
/// no partial level is ever built.
#[derive(Clone, Copy, PartialEq, Eq, Structural, Debug)]
pub enum LevelError {
    /// A placement references a planet kind the configuration lacks.
    UnknownPlanet,
    /// A planet kind's mass is zero, negative, or above `MASS_LIMIT`.
    BadMass,
    /// A planet kind's radius is negative or above `RADIUS_LIMIT`.
    BadRadius,
    /// The craft's fuel is zero, negative, or above `FUEL_LIMIT`.
    BadFuel,
    /// A coordinate or velocity lies outside the simulation's range.
    OutOfRange,
}

/// The index of the first level with the given id, or `-1`.
pub open spec fn find_world_idx(ws: Seq<WorldSpec>, id: i32) -> int
    decreases ws.len(),
{
    if ws.len() == 0 {
        -1
    } else if ws[0].id == id {
        0
    } else {
        let r = find_world_idx(ws.subrange(1, ws.len() as int), id);
        if r < 0 {
            -1
        } else {
            1 + r
        }
    }
}

/// The index of the first planet kind with the given id, or `-1`.
pub open spec fn find_def_idx(ds: Seq<PlanetDef>, id: u32) -> int
    decreases ds.len(),
{
    if ds.len() == 0 {
        -1
    } else if ds[0].id == id {
        0
    } else {
        let r = find_def_idx(ds.subrange(1, ds.len() as int), id);
        if r < 0 {
            -1
        } else {
            1 + r
        }
    }
}

/// What is wrong with one placement, if anything, checked in this order:
/// the kind must exist, its mass and radius must be admissible, and the
/// placement must lie in range.
pub open spec fn placement_error(ds: Seq<PlanetDef>, p: PlanetPlacement) -> Option<LevelError> {
    let di = find_def_idx(ds, p.planet);
    if di < 0 {
        Some(LevelError::UnknownPlanet)
    } else {
        let d = ds[di];
        if !(0 < d.mass <= MASS_LIMIT) {
            Some(LevelError::BadMass)
        } else if !(0 <= d.radius <= RADIUS_LIMIT) {
            Some(LevelError::BadRadius)
        } else if !(-COORD_LIMIT <= p.x <= COORD_LIMIT && -COORD_LIMIT <= p.y <= COORD_LIMIT) {
            Some(LevelError::OutOfRange)
        } else {
            None
        }
    }
}

/// The first placement error of the list, if any.
pub open spec fn planets_error(ds: Seq<PlanetDef>, ps: Seq<PlanetPlacement>) -> Option<LevelError>
    decreases ps.len(),
{
    if ps.len() == 0 {
        None
    } else if placement_error(ds, ps[0]) is Some {
        placement_error(ds, ps[0])
    } else {
        planets_error(ds, ps.subrange(1, ps.len() as int))
    }
}

/// What is wrong with one caption, if anything.
pub open spec fn text_error(t: TextSpec) -> Option<LevelError> {
    if !(-COORD_LIMIT <= t.x <= COORD_LIMIT && -COORD_LIMIT <= t.y <= COORD_LIMIT) {
        Some(LevelError::OutOfRange)
    } else {
        None
    }
}

/// The first caption error of the list, if any.
pub open spec fn texts_error(ts: Seq<TextSpec>) -> Option<LevelError>
    decreases ts.len(),
{
    if ts.len() == 0 {
        None
    } else if text_error(ts[0]) is Some {
        text_error(ts[0])
    } else {
        texts_error(ts.subrange(1, ts.len() as int))
    }
}

/// What is wrong with the craft's placement, if anything: the tank must
/// hold some admissible amount, and place and velocity must lie in range.
pub open spec fn ship_error(sp: SpaceShipSpec) -> Option<LevelError> {
    if !(0 < sp.fuel <= FUEL_LIMIT) {
        Some(LevelError::BadFuel)
    } else if !(-COORD_LIMIT <= sp.x <= COORD_LIMIT && -COORD_LIMIT <= sp.y <= COORD_LIMIT
        && -VEL_LIMIT <= sp.vx <= VEL_LIMIT && -VEL_LIMIT <= sp.vy <= VEL_LIMIT) {
        Some(LevelError::OutOfRange)
    } else {
        None
    }
}

/// What is wrong with the end zone's placement, if anything.
pub open spec fn end_error(e: EndSpec) -> Option<LevelError> {
    if !(-COORD_LIMIT + 50 * SCALE <= e.x <= COORD_LIMIT && -COORD_LIMIT + 50 * SCALE <= e.y
        <= COORD_LIMIT) {
        Some(LevelError::OutOfRange)
    } else {
        None
    }
}

/// The first fault of a level, checked in build order: placements,
/// captions, the craft, the end zone.
pub open spec fn world_error(ds: Seq<PlanetDef>, w: &WorldSpec) -> Option<LevelError> {
    if planets_error(ds, w.planets@) is Some {
        planets_error(ds, w.planets@)
    } else if texts_error(w.texts@) is Some {
        texts_error(w.texts@)
    } else if ship_error(w.spaceship) is Some {
        ship_error(w.spaceship)
    } else {
        end_error(w.end)
    }
}

/// The row one placement builds: its kind's planet, standing still when
/// the kind is fixed and orbiting upward at four hundred units per
/// second otherwise.
pub open spec fn placement_ent(ds: Seq<PlanetDef>, p: PlanetPlacement) -> Entity {
    let d = ds[find_def_idx(ds, p.planet)];
    let base = planet_ent(d.sprite, p.x, p.y, d.mass, d.radius);
    if d.fix {
        base
    } else {
        Entity { velocity: Some(Velocity { x: 0, y: 400_000_000 }), ..base }
    }
}

/// The rows of all placements, in order.
pub open spec fn planets_ents(ds: Seq<PlanetDef>, ps: Seq<PlanetPlacement>) -> Seq<Entity>
    decreases ps.len(),
{
    if ps.len() == 0 {
        Seq::empty()
    } else {
        planets_ents(ds, ps.drop_last()).push(placement_ent(ds, ps.last()))
    }
}

/// The rows of all captions, in order.
pub open spec fn texts_ents(ts: Seq<TextSpec>) -> Seq<Entity>
    decreases ts.len(),
{
    if ts.len() == 0 {
        Seq::empty()
    } else {
        texts_ents(ts.drop_last()).push(
            text_ent(ts.last().text, ts.last().color, ts.last().style, ts.last().x, ts.last().y),
        )
    }
}

/// Every row of a well-formed level, in build order: the optional
/// backdrop, the placed planets, the captions, the craft, the end zone,
/// and the HUD.
pub open spec fn level_ents(ds: Seq<PlanetDef>, w: &WorldSpec) -> Seq<Entity> {
    (if w.background {
        seq![background_ent()]
    } else {
        Seq::empty()
    }) + planets_ents(ds, w.planets@) + texts_ents(w.texts@) + seq![
        spaceship_ent(w.spaceship.x, w.spaceship.y, w.spaceship.vx, w.spaceship.vy, w.spaceship.fuel),
        end_zone_ent(w.end.x, w.end.y),
    ] + hud_ents()
}

/// A level with the given id, with none before it, is the one found.
proof fn lemma_find_world_found(ws: Seq<WorldSpec>, id: i32, i: int)
    requires
        0 <= i < ws.len(),
        ws[i].id == id,
        forall|k: int| 0 <= k < i ==> (#[trigger] ws[k]).id != id,
    ensures
        find_world_idx(ws, id) == i,
    decreases ws.len(),
{
    if i == 0 {
    } else {
        let t = ws.subrange(1, ws.len() as int);
        assert(t[i - 1] == ws[i]);
        assert(forall|k: int| 0 <= k < i - 1 ==> #[trigger] t[k] == ws[k + 1]);
        lemma_find_world_found(t, id, i - 1);
    }
}

/// With no level of the given id, none is found.
proof fn lemma_find_world_none(ws: Seq<WorldSpec>, id: i32)
    requires
        forall|k: int| 0 <= k < ws.len() ==> (#[trigger] ws[k]).id != id,
    ensures
        find_world_idx(ws, id) == -1,
    decreases ws.len(),
{
    if ws.len() == 0 {
    } else {
        let t = ws.subrange(1, ws.len() as int);
        assert(forall|k: int| 0 <= k < t.len() ==> #[trigger] t[k] == ws[k + 1]);
        lemma_find_world_none(t, id);
    }
}

/// A kind with the given id, with none before it, is the one found.
proof fn lemma_find_def_found(ds: Seq<PlanetDef>, id: u32, i: int)
    requires
        0 <= i < ds.len(),
        ds[i].id == id,
        forall|k: int| 0 <= k < i ==> (#[trigger] ds[k]).id != id,
    ensures
        find_def_idx(ds, id) == i,
    decreases ds.len(),
{
    if i == 0 {
    } else {
        let t = ds.subrange(1, ds.len() as int);
        assert(t[i - 1] == ds[i]);
        assert(forall|k: int| 0 <= k < i - 1 ==> #[trigger] t[k] == ds[k + 1]);
        lemma_find_def_found(t, id, i - 1);
    }
}

/// With no kind of the given id, none is found.
proof fn lemma_find_def_none(ds: Seq<PlanetDef>, id: u32)
    requires
        forall|k: int| 0 <= k < ds.len() ==> (#[trigger] ds[k]).id != id,
    ensures
        find_def_idx(ds, id) == -1,
    decreases ds.len(),
{
    if ds.len() == 0 {
    } else {
        let t = ds.subrange(1, ds.len() as int);
        assert(forall|k: int| 0 <= k < t.len() ==> #[trigger] t[k] == ds[k + 1]);
        lemma_find_def_none(t, id);
    }
}

/// The first faulty placement decides the list's error.
proof fn lemma_planets_error_at(ds: Seq<PlanetDef>, ps: Seq<PlanetPlacement>, i: int)
    requires
        0 <= i < ps.len(),
        placement_error(ds, ps[i]) is Some,
        forall|k: int| 0 <= k < i ==> placement_error(ds, #[trigger] ps[k]) is None,
    ensures
        planets_error(ds, ps) == placement_error(ds, ps[i]),
    decreases ps.len(),
{
    if i == 0 {
    } else {
        let t = ps.subrange(1, ps.len() as int);
        assert(t[i - 1] == ps[i]);
        assert(forall|k: int| 0 <= k < i - 1 ==> #[trigger] t[k] == ps[k + 1]);
        lemma_planets_error_at(ds, t, i - 1);
    }
}

/// With every placement sound, the list has no error.
proof fn lemma_planets_error_none(ds: Seq<PlanetDef>, ps: Seq<PlanetPlacement>)
    requires
        forall|k: int| 0 <= k < ps.len() ==> placement_error(ds, #[trigger] ps[k]) is None,
    ensures
        planets_error(ds, ps) is None,
    decreases ps.len(),
{
    if ps.len() == 0 {
    } else {
        let t = ps.subrange(1, ps.len() as int);
        assert(forall|k: int| 0 <= k < t.len() ==> #[trigger] t[k] == ps[k + 1]);
        lemma_planets_error_none(ds, t);
    }
}

/// The first faulty caption decides the list's error.
proof fn lemma_texts_error_at(ts: Seq<TextSpec>, i: int)
    requires
        0 <= i < ts.len(),
        text_error(ts[i]) is Some,
        forall|k: int| 0 <= k < i ==> text_error(#[trigger] ts[k]) is None,
    ensures
        texts_error(ts) == text_error(ts[i]),
    decreases ts.len(),
{
    if i == 0 {
    } else {
        let t = ts.subrange(1, ts.len() as int);
        assert(t[i - 1] == ts[i]);
        assert(forall|k: int| 0 <= k < i - 1 ==> #[trigger] t[k] == ts[k + 1]);
        lemma_texts_error_at(t, i - 1);
    }
}

/// With every caption sound, the list has no error.
proof fn lemma_texts_error_none(ts: Seq<TextSpec>)
    requires
        forall|k: int| 0 <= k < ts.len() ==> text_error(#[trigger] ts[k]) is None,
    ensures
        texts_error(ts) is None,
    decreases ts.len(),
{
    if ts.len() == 0 {
    } else {
        let t = ts.subrange(1, ts.len() as int);
        assert(forall|k: int| 0 <= k < t.len() ==> #[trigger] t[k] == ts[k + 1]);
        lemma_texts_error_none(t);
    }
}

/// The first recorded planet kind with the given id.
fn find_def(ds: &Vec<PlanetDef>, id: u32) -> (r: Option<PlanetDef>)
    ensures
        find_def_idx(ds@, id) >= 0 ==> r == Some(ds@[find_def_idx(ds@, id)]),
        find_def_idx(ds@, id) < 0 ==> r is None,
{
    let n = ds.len();
    let mut i: usize = 0;
    while i < n
        invariant
            i <= n == ds@.len(),
            forall|k: int| 0 <= k < i ==> (#[trigger] ds@[k]).id != id,
        decreases n - i,
    {
        let d = ds[i];
        if d.id == id {
            proof {
                lemma_find_def_found(ds@, id, i as int);
            }
            return Some(d);
        }
        i += 1;
    }
    proof {
        lemma_find_def_none(ds@, id);
    }
    None
}

/// Build the level with the given id from the configuration. A level the
/// configuration lacks yields a store holding only the HUD; a malformed
/// level is fatal: the first fault is reported and nothing is built.
pub fn load_level(level: i32, root: &Root) -> (r: Result<World, LevelError>)
    ensures
        ({
            let wi = find_world_idx(root.worlds@, level);
            match r {
                Ok(w) => {
                    if wi >= 0 {
                        &&& world_error(root.planets@, &root.worlds@[wi]) is None
                        &&& w.ents@ == level_ents(root.planets@, &root.worlds@[wi])
                    } else {
                        w.ents@ == hud_ents()
                    }
                },
                Err(e) => wi >= 0 && world_error(root.planets@, &root.worlds@[wi]) == Some(e),
            }
        }),
{
    let nw = root.worlds.len();
    let mut wi: usize = 0;
    let mut found = false;
    let mut scan: usize = 0;
    while scan < nw
        invariant
            scan <= nw == root.worlds@.len(),
            !found ==> forall|k: int| 0 <= k < scan ==> (#[trigger] root.worlds@[k]).id != level,
            found ==> wi < nw && find_world_idx(root.worlds@, level) == wi,
        decreases nw - scan,
    {
        if !found && root.worlds[scan].id == level {
            found = true;
            wi = scan;
            proof {
                lemma_find_world_found(root.worlds@, level, scan as int);
            }
        }
        scan += 1;
    }
    if !found {
        proof {
            lemma_find_world_none(root.worlds@, level);
        }
        let mut world = World::new();
        crate::hud::build_hud(&mut world);
        proof {
            assert(world.ents@ =~= hud_ents());
        }
        return Ok(world);
    }

    let w = &root.worlds[wi];
    let ghost ds = root.planets@;
    let mut world = World::new();

    if w.background {
        world.spawn(crate::levels::common::background());
    }
    let ghost base = world.ents@;

    let np = w.planets.len();
    let mut i: usize = 0;
    while i < np
        invariant
            i <= np == w.planets@.len(),
            ds == root.planets@,
            w == &root.worlds@[wi as int],
            wi < root.worlds@.len(),
            find_world_idx(root.worlds@, level) == wi as int,
            forall|k: int| 0 <= k < i ==> placement_error(ds, #[trigger] w.planets@[k]) is None,
            world.ents@ == base + planets_ents(ds, w.planets@.take(i as int)),
        decreases np - i,
    {
        let p = w.planets[i];
        match find_def(&root.planets, p.planet) {
            None => {
                proof {
                    lemma_planets_error_at(ds, w.planets@, i as int);
                }
                return Err(LevelError::UnknownPlanet);
            },
            Some(d) => {
                if !(0 < d.mass && d.mass <= MASS_LIMIT) {
                    proof {
                        lemma_planets_error_at(ds, w.planets@, i as int);
                    }
                    return Err(LevelError::BadMass);
                }
                if !(0 <= d.radius && d.radius <= RADIUS_LIMIT) {
                    proof {
                        lemma_planets_error_at(ds, w.planets@, i as int);
                    }
                    return Err(LevelError::BadRadius);
                }
                if !(-COORD_LIMIT <= p.x && p.x <= COORD_LIMIT && -COORD_LIMIT <= p.y && p.y
                    <= COORD_LIMIT) {
                    proof {
                        lemma_planets_error_at(ds, w.planets@, i as int);
                    }
                    return Err(LevelError::OutOfRange);
                }
                let mut e = crate::levels::common::planet(d.sprite, p.x, p.y, d.mass, d.radius);
                if !d.fix {
                    e.velocity = Some(Velocity { x: 0, y: 400 * SCALE });
                }
                world.spawn(e);
                proof {
                    assert(w.planets@.take(i + 1).drop_last() =~= w.planets@.take(i as int));
                    assert(w.planets@.take(i + 1).last() == w.planets@[i as int]);
                    assert(world.ents@ =~= base + planets_ents(ds, w.planets@.take(i + 1)));
                }
            },
        }
        i += 1;
    }
    proof {
        assert(w.planets@.take(np as int) =~= w.planets@);
        lemma_planets_error_none(ds, w.planets@);
    }
    let ghost base2 = world.ents@;

    let nt = w.texts.len();
    let mut j: usize = 0;
    while j < nt
        invariant
            j <= nt == w.texts@.len(),
            ds == root.planets@,
            w == &root.worlds@[wi as int],
            wi < root.worlds@.len(),
            find_world_idx(root.worlds@, level) == wi as int,
            planets_error(ds, w.planets@) is None,
            forall|k: int| 0 <= k < j ==> text_error(#[trigger] w.texts@[k]) is None,
            world.ents@ == base2 + texts_ents(w.texts@.take(j as int)),
        decreases nt - j,
    {
        let t = w.texts[j];
        if !(-COORD_LIMIT <= t.x && t.x <= COORD_LIMIT && -COORD_LIMIT <= t.y && t.y
            <= COORD_LIMIT) {
            proof {
                lemma_texts_error_at(w.texts@, j as int);
            }
            return Err(LevelError::OutOfRange);
        }
        world.spawn(crate::levels::common::text(t.text, t.color, t.style, t.x, t.y));
        proof {
            assert(w.texts@.take(j + 1).drop_last() =~= w.texts@.take(j as int));
            assert(w.texts@.take(j + 1).last() == w.texts@[j as int]);
            assert(world.ents@ =~= base2 + texts_ents(w.texts@.take(j + 1)));
        }
        j += 1;
    }
    proof {
        assert(w.texts@.take(nt as int) =~= w.texts@);
        lemma_texts_error_none(w.texts@);
    }

    let sp = w.spaceship;
    if !(0 < sp.fuel && sp.fuel <= FUEL_LIMIT) {
        return Err(LevelError::BadFuel);
    }
    if !(-COORD_LIMIT <= sp.x && sp.x <= COORD_LIMIT && -COORD_LIMIT <= sp.y && sp.y <= COORD_LIMIT
        && -VEL_LIMIT <= sp.vx && sp.vx <= VEL_LIMIT && -VEL_LIMIT <= sp.vy && sp.vy <= VEL_LIMIT) {
        return Err(LevelError::OutOfRange);
    }
    world.spawn(crate::levels::common::spaceship(sp.x, sp.y, sp.vx, sp.vy, sp.fuel));

    let ez = w.end;
    if !(-COORD_LIMIT + 50 * SCALE <= ez.x && ez.x <= COORD_LIMIT && -COORD_LIMIT + 50 * SCALE
        <= ez.y && ez.y <= COORD_LIMIT) {
        return Err(LevelError::OutOfRange);
    }
    world.spawn(crate::levels::common::end_zone(ez.x, ez.y));

    crate::hud::build_hud(&mut world);
    proof {
        assert(world.ents@ =~= level_ents(root.planets@, &root.worlds@[wi as int]));
    }
    Ok(world)
}

} // verus!
