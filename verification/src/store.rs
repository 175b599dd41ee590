use vstd::prelude::*;
use crate::dynamics::{Celestial, Mass, Position, Velocity};
use crate::hud::FuelHUD;
use crate::renderer::{Camera, Renderer};
use crate::{COORD_LIMIT, DT_LIMIT, FUEL_LIMIT, MASS_LIMIT, RADIUS_LIMIT, SpaceShip, EndZone, Finish, VEL_LIMIT};

verus! {

/// One row of the store: an entity is nothing but the components attached
/// to it. Absent components are `None`.
#[derive(Clone, Copy, Debug)]
pub struct Entity {
    pub position: Option<Position>,
    pub velocity: Option<Velocity>,
    pub mass: Option<Mass>,
    pub celestial: Option<Celestial>,
    pub spaceship: Option<SpaceShip>,
    pub end_zone: Option<EndZone>,
    pub renderer: Option<Renderer>,
    pub camera: Option<Camera>,
    pub finish: Option<Finish>,
    pub fuel_hud: Option<FuelHUD>,
}

impl Entity {
    /// The entity with nothing attached.
    pub open spec fn spec_new() -> Entity {
        Entity {
            position: None,
            velocity: None,
            mass: None,
            celestial: None,
            spaceship: None,
            end_zone: None,
            renderer: None,
            camera: None,
            finish: None,
            fuel_hud: None,
        }
    }

    /// Spawn base: attach components to this by struct update.
    pub fn new() -> (e: Entity)
        ensures
            e == Entity::spec_new(),
    {
        Entity {
            position: None,
            velocity: None,
            mass: None,
            celestial: None,
            spaceship: None,
            end_zone: None,
            renderer: None,
            camera: None,
            finish: None,
            fuel_hud: None,
        }
    }

    /// A mover: it has a position and a velocity and is integrated by the
    /// gravity pass.
    pub open spec fn is_mover(self) -> bool {
        self.position is Some && self.velocity is Some
    }

    /// An attractor: it has a position and carries mass, through a
    /// `Celestial` or a bare `Mass` component.
    pub open spec fn is_attractor(self) -> bool {
        self.position is Some && (self.celestial is Some || self.mass is Some)
    }

    /// The mass an attractor pulls with; a `Celestial` outweighs a bare
    /// `Mass` when both are attached.
    pub open spec fn attractor_mass(self) -> int {
        if self.celestial is Some {
            self.celestial->Some_0.mass as int
        } else {
            self.mass->Some_0.mass as int
        }
    }

    /// The piloted craft: spacecraft state over a position.
    pub open spec fn is_ship(self) -> bool {
        self.spaceship is Some && self.position is Some
    }

    /// All attached components lie within the simulation's numeric range.
    pub open spec fn in_bounds(self) -> bool {
        &&& (self.position matches Some(p) ==>
            -COORD_LIMIT <= p.x <= COORD_LIMIT && -COORD_LIMIT <= p.y <= COORD_LIMIT)
        &&& (self.velocity matches Some(v) ==>
            -VEL_LIMIT <= v.x <= VEL_LIMIT && -VEL_LIMIT <= v.y <= VEL_LIMIT)
        &&& (self.celestial matches Some(c) ==>
            0 <= c.mass <= MASS_LIMIT && 0 <= c.radius <= RADIUS_LIMIT)
        &&& (self.mass matches Some(m) ==> 0 <= m.mass <= MASS_LIMIT)
        &&& (self.spaceship matches Some(s) ==>
            -FUEL_LIMIT <= s.fuel <= FUEL_LIMIT && 0 < s.initial_fuel <= FUEL_LIMIT
            && s.fuel <= s.initial_fuel)
        &&& (self.end_zone matches Some(z) ==>
            0 <= z.width <= COORD_LIMIT && 0 <= z.height <= COORD_LIMIT)
        &&& (self.camera matches Some(c) ==>
            -CAM_BOUND <= c.offset.x <= CAM_BOUND && -CAM_BOUND <= c.offset.y <= CAM_BOUND)
    }
}

/// Largest camera offset magnitude: a clamp against an in-range ship
/// position stays within `COORD_LIMIT` plus the screen's span.
pub const CAM_BOUND: i64 = 1_002_000_000_000;

impl Entity {
    /// Decide `in_bounds` at run time.
    pub fn check_in_bounds(&self) -> (b: bool)
        ensures
            b == self.in_bounds(),
    {
        let pos_ok = match self.position {
            Some(p) => -COORD_LIMIT <= p.x && p.x <= COORD_LIMIT && -COORD_LIMIT <= p.y && p.y
                <= COORD_LIMIT,
            None => true,
        };
        let vel_ok = match self.velocity {
            Some(v) => -VEL_LIMIT <= v.x && v.x <= VEL_LIMIT && -VEL_LIMIT <= v.y && v.y
                <= VEL_LIMIT,
            None => true,
        };
        let cel_ok = match self.celestial {
            Some(c) => 0 <= c.mass && c.mass <= MASS_LIMIT && 0 <= c.radius && c.radius
                <= RADIUS_LIMIT,
            None => true,
        };
        let mass_ok = match self.mass {
            Some(m) => 0 <= m.mass && m.mass <= MASS_LIMIT,
            None => true,
        };
        let ship_ok = match self.spaceship {
            Some(s) => -FUEL_LIMIT <= s.fuel && s.fuel <= FUEL_LIMIT && 0 < s.initial_fuel
                && s.initial_fuel <= FUEL_LIMIT && s.fuel <= s.initial_fuel,
            None => true,
        };
        let zone_ok = match self.end_zone {
            Some(z) => 0 <= z.width && z.width <= COORD_LIMIT && 0 <= z.height && z.height
                <= COORD_LIMIT,
            None => true,
        };
        let cam_ok = match self.camera {
            Some(c) => -CAM_BOUND <= c.offset.x && c.offset.x <= CAM_BOUND && -CAM_BOUND
                <= c.offset.y && c.offset.y <= CAM_BOUND,
            None => true,
        };
        pos_ok && vel_ok && cel_ok && mass_ok && ship_ok && zone_ok && cam_ok
    }
}

/// Every entity of the sequence lies within the numeric range.
pub open spec fn all_in_bounds(s: Seq<Entity>) -> bool {
    forall|i: int| 0 <= i < s.len() ==> #[trigger] s[i].in_bounds()
}

/// The index of the first row satisfying `p`, or `-1` when none does.
/// Systems that read a singleton (the piloted craft, the camera, the run
/// state) read its first row.
pub open spec fn first_matching(s: Seq<Entity>, p: spec_fn(Entity) -> bool) -> int
    decreases s.len(),
{
    if s.len() == 0 {
        -1
    } else if p(s[0]) {
        0
    } else {
        let r = first_matching(s.subrange(1, s.len() as int), p);
        if r < 0 {
            -1
        } else {
            1 + r
        }
    }
}

/// A row that satisfies `p`, with none before it, is the first.
pub proof fn lemma_first_matching_found(s: Seq<Entity>, p: spec_fn(Entity) -> bool, i: int)
    requires
        0 <= i < s.len(),
        p(s[i]),
        forall|k: int| 0 <= k < i ==> !p(#[trigger] s[k]),
    ensures
        first_matching(s, p) == i,
    decreases s.len(),
{
    if i == 0 {
    } else {
        let t = s.subrange(1, s.len() as int);
        assert(t[i - 1] == s[i]);
        assert(forall|k: int| 0 <= k < i - 1 ==> #[trigger] t[k] == s[k + 1]);
        lemma_first_matching_found(t, p, i - 1);
    }
}

/// When no row satisfies `p`, there is no first.
pub proof fn lemma_first_matching_none(s: Seq<Entity>, p: spec_fn(Entity) -> bool)
    requires
        forall|k: int| 0 <= k < s.len() ==> !p(#[trigger] s[k]),
    ensures
        first_matching(s, p) == -1,
    decreases s.len(),
{
    if s.len() == 0 {
    } else {
        let t = s.subrange(1, s.len() as int);
        assert(forall|k: int| 0 <= k < t.len() ==> #[trigger] t[k] == s[k + 1]);
        lemma_first_matching_none(t, p);
    }
}

/// The first matching row satisfies `p`, and no earlier row does.
pub proof fn lemma_first_matching_is_first(s: Seq<Entity>, p: spec_fn(Entity) -> bool)
    ensures
        first_matching(s, p) >= 0 ==> {
            &&& first_matching(s, p) < s.len()
            &&& p(s[first_matching(s, p)])
            &&& forall|k: int| 0 <= k < first_matching(s, p) ==> !p(#[trigger] s[k])
        },
        first_matching(s, p) < 0 ==> forall|k: int| 0 <= k < s.len() ==> !p(#[trigger] s[k]),
    decreases s.len(),
{
    if s.len() == 0 {
    } else if p(s[0]) {
    } else {
        let t = s.subrange(1, s.len() as int);
        assert(forall|k: int| 0 <= k < t.len() ==> #[trigger] t[k] == s[k + 1]);
        lemma_first_matching_is_first(t, p);
        let r = first_matching(t, p);
        if r >= 0 {
            assert(first_matching(s, p) == 1 + r);
            assert(p(s[1 + r]));
            assert forall|k: int| 0 <= k < 1 + r implies !p(#[trigger] s[k]) by {
                if k >= 1 {
                    assert(s[k] == t[k - 1]);
                }
            }
        } else {
            assert forall|k: int| 0 <= k < s.len() implies !p(#[trigger] s[k]) by {
                if k >= 1 {
                    assert(s[k] == t[k - 1]);
                }
            }
        }
    }
}

/// A time step admitted by a single tick.
pub open spec fn dt_in_bounds(delta: i64) -> bool {
    0 <= delta <= DT_LIMIT
}

/// The entity store: a table of rows, identified by their index. Rows are
/// only ever appended; the store lives exactly as long as the level.
pub struct World {
    pub ents: Vec<Entity>,
}

impl World {
    /// The empty store.
    pub fn new() -> (w: World)
        ensures
            w.ents@ =~= Seq::<Entity>::empty(),
    {
        World { ents: Vec::new() }
    }

    /// Append a row; the returned id names it forever.
    pub fn spawn(&mut self, e: Entity) -> (id: usize)
        ensures
            final(self).ents@ == old(self).ents@.push(e),
            id == old(self).ents@.len(),
    {
        let id = self.ents.len();
        self.ents.push(e);
        id
    }

    /// The number of rows.
    pub fn len(&self) -> (n: usize)
        ensures
            n == self.ents@.len(),
    {
        self.ents.len()
    }

    /// Read the row with the given id.
    pub fn get(&self, id: usize) -> (e: &Entity)
        requires
            id < self.ents@.len(),
        ensures
            *e == self.ents@[id as int],
    {
        &self.ents[id]
    }

    /// Decide at run time whether every row lies within the simulation's
    /// numeric range.
    pub fn check_in_bounds(&self) -> (b: bool)
        ensures
            b == all_in_bounds(self.ents@),
    {
        let n = self.ents.len();
        let mut i: usize = 0;
        while i < n
            invariant
                i <= n == self.ents@.len(),
                forall|k: int| 0 <= k < i ==> (#[trigger] self.ents@[k]).in_bounds(),
            decreases n - i,
        {
            if !self.ents[i].check_in_bounds() {
                return false;
            }
            i += 1;
        }
        true
    }

    /// A row-for-row copy of the store, to probe a pass without touching
    /// the original.
    pub fn duplicate(&self) -> (w: World)
        ensures
            w.ents@ == self.ents@,
    {
        let n = self.ents.len();
        let mut ents: Vec<Entity> = Vec::new();
        let mut i: usize = 0;
        while i < n
            invariant
                i <= n == self.ents@.len(),
                ents@ == self.ents@.take(i as int),
            decreases n - i,
        {
            ents.push(self.ents[i]);
            proof {
                assert(ents@ =~= self.ents@.take(i + 1));
            }
            i += 1;
        }
        proof {
            assert(self.ents@.take(n as int) =~= self.ents@);
        }
        World { ents }
    }
}

} // verus!
