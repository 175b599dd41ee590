use vstd::prelude::*;
use crate::dynamics::Position;
use crate::store::{Entity, World, all_in_bounds, first_matching,
    lemma_first_matching_found, lemma_first_matching_none};

verus! {

/// Margin the craft keeps from the screen's top and left edges.
pub const CAM_MIN: i64 = 100_000_000;

/// Largest on-screen x of the craft: the view's width minus the margin.
pub const CAM_MAX_X: i64 = 1_260_000_000;

/// Largest on-screen y of the craft: the view's height minus the margin.
pub const CAM_MAX_Y: i64 = 668_000_000;

/// The scroll offset that frames the world on the screen: a visual at
/// world position `p` is painted at `p + offset` unless it is fixed.
#[derive(Clone, Copy, PartialEq, Eq, Structural, Debug)]
pub struct Camera {
    pub offset: Position,
}

/// The closed set of visual kinds. Lengths and radii are raw fixed-point
/// steps; `z` orders the draw pass; `fixed` visuals are painted in screen
/// space, ignoring the camera offset.
#[derive(Clone, Copy, Debug)]
pub enum Renderer {
    CircleRenderer { radius: i64, color: &'static str, z: i32, fixed: bool },
    RectRenderer { width: i64, height: i64, color: &'static str, z: i32, fixed: bool },
    TextRenderer { text: &'static str, color: &'static str, font: &'static str, z: i32, fixed: bool },
    SpriteRenderer { image: u32, z: i32, fixed: bool },
}

impl Renderer {
    /// A filled circle of the given radius and color, at depth 0, in world space.
    pub fn circle(radius: i64, color: &'static str) -> (r: Renderer)
        ensures
            r == (Renderer::CircleRenderer { radius, color, z: 0, fixed: false }),
    {
        Renderer::CircleRenderer { radius, color, z: 0, fixed: false }
    }

    /// A filled rectangle, top-left anchored, at depth 0, in world space.
    pub fn rect(width: i64, height: i64, color: &'static str) -> (r: Renderer)
        ensures
            r == (Renderer::RectRenderer { width, height, color, z: 0, fixed: false }),
    {
        Renderer::RectRenderer { width, height, color, z: 0, fixed: false }
    }

    /// A text baseline at the entity's position, at depth 0, in world space.
    pub fn text(text: &'static str, color: &'static str, font: &'static str) -> (r: Renderer)
        ensures
            r == (Renderer::TextRenderer { text, color, font, z: 0, fixed: false }),
    {
        Renderer::TextRenderer { text, color, font, z: 0, fixed: false }
    }

    /// A sprite identified by an asset id, resolved by the painter's asset
    /// lookup, at depth 0, in world space.
    pub fn sprite(image: u32) -> (r: Renderer)
        ensures
            r == (Renderer::SpriteRenderer { image, z: 0, fixed: false }),
    {
        Renderer::SpriteRenderer { image, z: 0, fixed: false }
    }

    /// The depth of this visual, read in spec code.
    pub open spec fn spec_z(self) -> i32 {
        match self {
            Renderer::CircleRenderer { z, .. } => z,
            Renderer::RectRenderer { z, .. } => z,
            Renderer::TextRenderer { z, .. } => z,
            Renderer::SpriteRenderer { z, .. } => z,
        }
    }

    /// Whether this visual is painted in screen space, read in spec code.
    pub open spec fn spec_fixed(self) -> bool {
        match self {
            Renderer::CircleRenderer { fixed, .. } => fixed,
            Renderer::RectRenderer { fixed, .. } => fixed,
            Renderer::TextRenderer { fixed, .. } => fixed,
            Renderer::SpriteRenderer { fixed, .. } => fixed,
        }
    }

    /// The same visual at another depth.
    pub open spec fn spec_with_z(self, new_z: i32) -> Renderer {
        match self {
            Renderer::CircleRenderer { radius, color, z, fixed } =>
                Renderer::CircleRenderer { radius, color, z: new_z, fixed },
            Renderer::RectRenderer { width, height, color, z, fixed } =>
                Renderer::RectRenderer { width, height, color, z: new_z, fixed },
            Renderer::TextRenderer { text, color, font, z, fixed } =>
                Renderer::TextRenderer { text, color, font, z: new_z, fixed },
            Renderer::SpriteRenderer { image, z, fixed } =>
                Renderer::SpriteRenderer { image, z: new_z, fixed },
        }
    }

    /// The same visual with another screen-space flag.
    pub open spec fn spec_with_fixed(self, new_fixed: bool) -> Renderer {
        match self {
            Renderer::CircleRenderer { radius, color, z, fixed } =>
                Renderer::CircleRenderer { radius, color, z, fixed: new_fixed },
            Renderer::RectRenderer { width, height, color, z, fixed } =>
                Renderer::RectRenderer { width, height, color, z, fixed: new_fixed },
            Renderer::TextRenderer { text, color, font, z, fixed } =>
                Renderer::TextRenderer { text, color, font, z, fixed: new_fixed },
            Renderer::SpriteRenderer { image, z, fixed } =>
                Renderer::SpriteRenderer { image, z, fixed: new_fixed },
        }
    }

    /// Move this visual to the given depth.
    pub fn set_z(&mut self, new_z: i32)
        ensures
            *final(self) == old(self).spec_with_z(new_z),
    {
        match self {
            Renderer::CircleRenderer { z, .. } => *z = new_z,
            Renderer::RectRenderer { z, .. } => *z = new_z,
            Renderer::TextRenderer { z, .. } => *z = new_z,
            Renderer::SpriteRenderer { z, .. } => *z = new_z,
        }
    }

    /// The depth of this visual.
    pub fn get_z(&self) -> (r: i32)
        ensures
            r == self.spec_z(),
    {
        match self {
            Renderer::CircleRenderer { z, .. } => *z,
            Renderer::RectRenderer { z, .. } => *z,
            Renderer::TextRenderer { z, .. } => *z,
            Renderer::SpriteRenderer { z, .. } => *z,
        }
    }

    /// Pin this visual to screen space, or release it to world space.
    pub fn set_fixed(&mut self, new_fixed: bool)
        ensures
            *final(self) == old(self).spec_with_fixed(new_fixed),
    {
        match self {
            Renderer::CircleRenderer { fixed, .. } => *fixed = new_fixed,
            Renderer::RectRenderer { fixed, .. } => *fixed = new_fixed,
            Renderer::TextRenderer { fixed, .. } => *fixed = new_fixed,
            Renderer::SpriteRenderer { fixed, .. } => *fixed = new_fixed,
        }
    }

    /// Whether this visual is painted in screen space.
    pub fn is_fixed(&self) -> (r: bool)
        ensures
            r == self.spec_fixed(),
    {
        match self {
            Renderer::CircleRenderer { fixed, .. } => *fixed,
            Renderer::RectRenderer { fixed, .. } => *fixed,
            Renderer::TextRenderer { fixed, .. } => *fixed,
            Renderer::SpriteRenderer { fixed, .. } => *fixed,
        }
    }
}

/// A visual scheduled for sorting: its depth and the row it came from.
/// The row index doubles as the insertion rank that breaks depth ties.
#[derive(Clone, Copy, PartialEq, Eq, Structural, Debug)]
pub struct DrawItem {
    pub z: i32,
    pub ent: usize,
}

/// The draw order: ascending depth, ties broken by ascending row.
pub open spec fn item_le(a: DrawItem, b: DrawItem) -> bool {
    a.z < b.z || (a.z == b.z && a.ent <= b.ent)
}

/// Strictly after in the draw order.
pub open spec fn item_gt(a: DrawItem, b: DrawItem) -> bool {
    !item_le(a, b)
}

/// A sequence laid out in draw order.
pub open spec fn sorted_items(s: Seq<DrawItem>) -> bool {
    forall|i: int, j: int| 0 <= i < j < s.len() ==> item_le(#[trigger] s[i], #[trigger] s[j])
}

/// `x` slotted into its place from the back of `s`.
pub open spec fn insert_item(s: Seq<DrawItem>, x: DrawItem) -> Seq<DrawItem>
    decreases s.len(),
{
    if s.len() == 0 {
        seq![x]
    } else if item_gt(s.last(), x) {
        insert_item(s.drop_last(), x).push(s.last())
    } else {
        s.push(x)
    }
}

/// Insertion sort: the unique stable ordering of the items by depth.
pub open spec fn sort_items_spec(s: Seq<DrawItem>) -> Seq<DrawItem>
    decreases s.len(),
{
    if s.len() == 0 {
        Seq::empty()
    } else {
        insert_item(sort_items_spec(s.drop_last()), s.last())
    }
}

/// Where `insert_item` puts `x`: before every strictly-later element.
proof fn lemma_insert_item_at(s: Seq<DrawItem>, x: DrawItem, k: int)
    requires
        0 <= k <= s.len(),
        forall|q: int| k <= q < s.len() ==> item_gt(#[trigger] s[q], x),
        k > 0 ==> !item_gt(s[k - 1], x),
    ensures
        insert_item(s, x) =~= s.take(k).push(x) + s.skip(k),
    decreases s.len(),
{
    if s.len() == 0 {
    } else if k == s.len() {
        assert(!item_gt(s.last(), x));
        assert(insert_item(s, x) =~= s.take(k).push(x) + s.skip(k));
    } else {
        assert(item_gt(s.last(), x));
        let d = s.drop_last();
        assert(forall|q: int| k <= q < d.len() ==> item_gt(#[trigger] d[q], x));
        lemma_insert_item_at(d, x, k);
        assert(insert_item(s, x) =~= s.take(k).push(x) + s.skip(k));
    }
}

/// Sort the scheduled visuals into draw order. The result is exactly the
/// stable insertion sort of the input: ascending depth, ties keeping
/// their relative order.
pub fn sort_items(v: &Vec<DrawItem>) -> (out: Vec<DrawItem>)
    ensures
        out@ == sort_items_spec(v@),
{
    let n = v.len();
    let mut out: Vec<DrawItem> = Vec::new();
    let mut i: usize = 0;
    while i < n
        invariant
            i <= n == v@.len(),
            out@ == sort_items_spec(v@.take(i as int)),
        decreases n - i,
    {
        let x = v[i];
        let mut k: usize = out.len();
        while k > 0 && (out[k - 1].z > x.z || (out[k - 1].z == x.z && out[k - 1].ent > x.ent))
            invariant
                k <= out@.len(),
                forall|q: int| k <= q < out@.len() ==> item_gt(#[trigger] out@[q], x),
            decreases k,
        {
            k -= 1;
        }
        proof {
            lemma_insert_item_at(out@, x, k as int);
            assert(v@.take(i + 1).drop_last() =~= v@.take(i as int));
            assert(v@.take(i + 1).last() == v@[i as int]);
        }
        out.insert(k, x);
        proof {
            assert(out@ =~= sort_items_spec(v@.take(i as int)).take(k as int).push(x)
                + sort_items_spec(v@.take(i as int)).skip(k as int));
            assert(out@ =~= sort_items_spec(v@.take(i + 1)));
        }
        i += 1;
    }
    proof {
        assert(v@.take(n as int) =~= v@);
    }
    out
}

/// The stable sort keeps exactly the input's items, in draw order.
pub proof fn lemma_sort_items_spec(s: Seq<DrawItem>)
    ensures
        sorted_items(sort_items_spec(s)),
        sort_items_spec(s).to_multiset() == s.to_multiset(),
        sort_items_spec(s).len() == s.len(),
    decreases s.len(),
{
    broadcast use vstd::seq_lib::group_to_multiset_ensures;

    if s.len() == 0 {
        assert(sort_items_spec(s).to_multiset() =~= s.to_multiset());
    } else {
        lemma_sort_items_spec(s.drop_last());
        let t = sort_items_spec(s.drop_last());
        let x = s.last();
        lemma_insert_item_sorted(t, x);
        assert(s.drop_last().push(x) =~= s);
        assert(insert_item(t, x).to_multiset() == t.to_multiset().insert(x));
        assert(s.drop_last().push(x).to_multiset() == s.drop_last().to_multiset().insert(x));
    }
}

/// Slotting one item into a sorted sequence keeps it sorted and adds
/// exactly that item.
proof fn lemma_insert_item_sorted(s: Seq<DrawItem>, x: DrawItem)
    requires
        sorted_items(s),
    ensures
        sorted_items(insert_item(s, x)),
        insert_item(s, x).to_multiset() == s.to_multiset().insert(x),
        insert_item(s, x).len() == s.len() + 1,
    decreases s.len(),
{
    broadcast use vstd::seq_lib::group_to_multiset_ensures;

    if s.len() == 0 {
        assert(insert_item(s, x) =~= Seq::empty().push(x));
        assert(insert_item(s, x).to_multiset() =~= s.to_multiset().insert(x));
    } else if item_gt(s.last(), x) {
        let d = s.drop_last();
        assert(forall|i: int, j: int| 0 <= i < j < d.len() ==>
            item_le(#[trigger] d[i], #[trigger] d[j]));
        lemma_insert_item_sorted(d, x);
        let r = insert_item(d, x).push(s.last());
        assert forall|i: int, j: int| 0 <= i < j < r.len() implies
            item_le(#[trigger] r[i], #[trigger] r[j]) by {
            if j < r.len() - 1 {
            } else {
                lemma_insert_item_members(d, x, i);
            }
        }
        assert(d.push(s.last()) =~= s);
        assert(insert_item(s, x).to_multiset() == s.to_multiset().insert(x));
    } else {
        assert(forall|i: int| 0 <= i < s.len() ==> item_le(#[trigger] s[i], s.last()));
        assert forall|i: int, j: int| 0 <= i < j < s.push(x).len() implies
            item_le(#[trigger] s.push(x)[i], #[trigger] s.push(x)[j]) by {
            if j == s.len() {
                assert(item_le(s.push(x)[i], s.last()));
                assert(item_le(s.last(), x));
            }
        }
    }
}

/// Every element of an insertion result is an old element or the new one.
proof fn lemma_insert_item_members(s: Seq<DrawItem>, x: DrawItem, i: int)
    requires
        0 <= i < insert_item(s, x).len(),
    ensures
        insert_item(s, x)[i] == x || exists|q: int| 0 <= q < s.len()
            && insert_item(s, x)[i] == #[trigger] s[q],
    decreases s.len(),
{
    if s.len() == 0 {
    } else if item_gt(s.last(), x) {
        if i < insert_item(s, x).len() - 1 {
            lemma_insert_item_members(s.drop_last(), x, i);
            if insert_item(s, x)[i] != x {
                let q = choose|q: int| 0 <= q < s.drop_last().len()
                    && insert_item(s.drop_last(), x)[i] == #[trigger] s.drop_last()[q];
                assert(insert_item(s, x)[i] == s[q]);
            }
        } else {
            assert(insert_item(s, x)[i] == s[s.len() - 1]);
        }
    } else {
        if i < s.len() {
            assert(insert_item(s, x)[i] == s[i]);
        }
    }
}

/// Half the craft sprite's width: the sprite is anchored at its center.
pub const SHIP_HALF_W: i64 = 18_600_000;

/// Half the craft sprite's height.
pub const SHIP_HALF_H: i64 = 29_000_000;

/// A sprite's pixel dimensions, as the host's asset lookup reports them.
#[derive(Clone, Copy, PartialEq, Eq, Structural, Debug)]
pub struct SpriteDim {
    pub image: u32,
    pub width: u32,
    pub height: u32,
}

/// One paint command: a visual at a screen position (top-left anchored).
#[derive(Clone, Copy, Debug)]
pub struct DrawCmd {
    pub shape: Renderer,
    pub x: i64,
    pub y: i64,
}

/// The craft's paint command: painted last, anchored at its center at a
/// screen position, rotated to its heading.
#[derive(Clone, Copy, Debug)]
pub struct ShipDraw {
    pub shape: Renderer,
    pub x: i64,
    pub y: i64,
    pub heading_x: i64,
    pub heading_y: i64,
}

/// One frame's paint list: ordinary visuals in draw order, then every
/// craft, and the sprites that could not be resolved for centering.
pub struct RenderOut {
    pub cmds: Vec<DrawCmd>,
    pub ships: Vec<ShipDraw>,
    pub missing: Vec<u32>,
}

/// The rows that hold a camera.
pub open spec fn has_camera() -> spec_fn(Entity) -> bool {
    |e: Entity| e.camera is Some
}

/// A row the ordinary draw pass paints: a positioned visual that is not
/// the piloted craft.
pub open spec fn drawable(e: Entity) -> bool {
    e.renderer is Some && e.position is Some && e.spaceship is None
}

/// A row the final draw pass paints: the positioned, visible craft.
pub open spec fn drawable_ship(e: Entity) -> bool {
    e.renderer is Some && e.position is Some && e.spaceship is Some
}

/// The visuals scheduled for the ordinary pass, in row order.
pub open spec fn draw_items(s: Seq<Entity>) -> Seq<DrawItem>
    decreases s.len(),
{
    if s.len() == 0 {
        Seq::empty()
    } else if drawable(s.last()) {
        draw_items(s.drop_last()).push(DrawItem {
            z: s.last().renderer->Some_0.spec_z(),
            ent: (s.len() - 1) as usize,
        })
    } else {
        draw_items(s.drop_last())
    }
}

/// The first recorded dimensions of a sprite, or `None` when the asset
/// lookup has not resolved it.
pub open spec fn dim_of(dims: Seq<SpriteDim>, id: u32) -> Option<SpriteDim>
    decreases dims.len(),
{
    if dims.len() == 0 {
        None
    } else if dims[0].image == id {
        Some(dims[0])
    } else {
        dim_of(dims.subrange(1, dims.len() as int), id)
    }
}

/// Half of a sprite's pixel width, in raw steps.
pub open spec fn half_span(px: u32) -> int {
    px * 500_000
}

/// Where the ordinary pass paints the visual of row `it.ent`: fixed
/// visuals at their raw position; world visuals shifted by the camera;
/// world sprites additionally centered on their position, which needs
/// their dimensions — an unresolved sprite is not painted but reported.
pub open spec fn cmd_of(s: Seq<Entity>, cam: Camera, dims: Seq<SpriteDim>, it: DrawItem) -> Option<
    DrawCmd,
> {
    let e = s[it.ent as int];
    let r = e.renderer->Some_0;
    let p = e.position->Some_0;
    if r.spec_fixed() {
        Some(DrawCmd { shape: r, x: p.x, y: p.y })
    } else {
        match r {
            Renderer::SpriteRenderer { image, .. } => match dim_of(dims, image) {
                Some(d) => Some(DrawCmd {
                    shape: r,
                    x: (p.x + cam.offset.x - half_span(d.width)) as i64,
                    y: (p.y + cam.offset.y - half_span(d.height)) as i64,
                }),
                None => None,
            },
            _ => Some(DrawCmd {
                shape: r,
                x: (p.x + cam.offset.x) as i64,
                y: (p.y + cam.offset.y) as i64,
            }),
        }
    }
}

/// The paint commands of the scheduled items, in order, dropping what
/// cannot be painted.
pub open spec fn cmds_of(s: Seq<Entity>, cam: Camera, dims: Seq<SpriteDim>, its: Seq<DrawItem>)
    -> Seq<DrawCmd>
    decreases its.len(),
{
    if its.len() == 0 {
        Seq::empty()
    } else {
        cmds_of(s, cam, dims, its.drop_last()) + match cmd_of(s, cam, dims, its.last()) {
            Some(c) => seq![c],
            None => Seq::empty(),
        }
    }
}

/// The sprites the ordinary pass had to skip, in draw order.
pub open spec fn missing_of(s: Seq<Entity>, cam: Camera, dims: Seq<SpriteDim>, its: Seq<DrawItem>)
    -> Seq<u32>
    decreases its.len(),
{
    if its.len() == 0 {
        Seq::empty()
    } else {
        missing_of(s, cam, dims, its.drop_last()) + (
        if cmd_of(s, cam, dims, its.last()) is None {
            seq![s[its.last().ent as int].renderer->Some_0->SpriteRenderer_image]
        } else {
            Seq::empty()
        })
    }
}

/// The craft paint commands, in row order: world space through the
/// camera, center-anchored, rotated to the stored heading.
pub open spec fn ship_draws(s: Seq<Entity>, cam: Camera) -> Seq<ShipDraw>
    decreases s.len(),
{
    if s.len() == 0 {
        Seq::empty()
    } else if drawable_ship(s.last()) {
        let e = s.last();
        ship_draws(s.drop_last(), cam).push(ShipDraw {
            shape: e.renderer->Some_0,
            x: (e.position->Some_0.x + cam.offset.x) as i64,
            y: (e.position->Some_0.y + cam.offset.y) as i64,
            heading_x: e.spaceship->Some_0.heading_x,
            heading_y: e.spaceship->Some_0.heading_y,
        })
    } else {
        ship_draws(s.drop_last(), cam)
    }
}

/// Every scheduled item points at a drawable row of `s`.
proof fn lemma_draw_items_in_range(s: Seq<Entity>)
    requires
        s.len() <= usize::MAX,
    ensures
        forall|k: int| 0 <= k < draw_items(s).len() ==> {
            &&& (#[trigger] draw_items(s)[k]).ent < s.len()
            &&& drawable(s[draw_items(s)[k].ent as int])
        },
    decreases s.len(),
{
    if s.len() == 0 {
    } else {
        let d = s.drop_last();
        let pre = draw_items(d);
        lemma_draw_items_in_range(d);
        assert forall|k: int| 0 <= k < draw_items(s).len() implies {
            &&& (#[trigger] draw_items(s)[k]).ent < s.len()
            &&& drawable(s[draw_items(s)[k].ent as int])
        } by {
            if k < pre.len() {
                assert(pre[k].ent < d.len());
                assert(drawable(d[pre[k].ent as int]));
                assert(d[pre[k].ent as int] == s[pre[k].ent as int]);
                assert(draw_items(s)[k] == pre[k]);
            } else {
                assert(drawable(s.last()));
                assert(s[s.len() - 1] == s.last());
            }
        }
    }
}

/// The first recorded dimensions, found by scanning.
fn find_dim(dims: &Vec<SpriteDim>, id: u32) -> (r: Option<SpriteDim>)
    ensures
        r == dim_of(dims@, id),
{
    let n = dims.len();
    let mut i: usize = 0;
    while i < n
        invariant
            i <= n == dims@.len(),
            forall|k: int| 0 <= k < i ==> (#[trigger] dims@[k]).image != id,
        decreases n - i,
    {
        let d = dims[i];
        if d.image == id {
            proof {
                lemma_dim_of_found(dims@, id, i as int);
            }
            return Some(d);
        }
        i += 1;
    }
    proof {
        lemma_dim_of_none(dims@, id);
    }
    None
}

/// A recorded sprite with no earlier record is the one `dim_of` finds.
proof fn lemma_dim_of_found(dims: Seq<SpriteDim>, id: u32, i: int)
    requires
        0 <= i < dims.len(),
        dims[i].image == id,
        forall|k: int| 0 <= k < i ==> (#[trigger] dims[k]).image != id,
    ensures
        dim_of(dims, id) == Some(dims[i]),
    decreases dims.len(),
{
    if i == 0 {
    } else {
        let t = dims.subrange(1, dims.len() as int);
        assert(t[i - 1] == dims[i]);
        assert(forall|k: int| 0 <= k < i - 1 ==> #[trigger] t[k] == dims[k + 1]);
        lemma_dim_of_found(t, id, i - 1);
    }
}

/// A sprite never recorded has no dimensions.
proof fn lemma_dim_of_none(dims: Seq<SpriteDim>, id: u32)
    requires
        forall|k: int| 0 <= k < dims.len() ==> (#[trigger] dims[k]).image != id,
    ensures
        dim_of(dims, id) is None,
    decreases dims.len(),
{
    if dims.len() == 0 {
    } else {
        let t = dims.subrange(1, dims.len() as int);
        assert(forall|k: int| 0 <= k < t.len() ==> #[trigger] t[k] == dims[k + 1]);
        lemma_dim_of_none(t, id);
    }
}

/// Compose one frame: all positioned visuals except the craft, in stable
/// ascending depth order — fixed ones in screen space, the rest through
/// the first camera — then the craft, center-anchored and rotated to its
/// heading. Painting happens against the first camera; with no camera
/// nothing is painted. A world sprite whose dimensions the asset lookup
/// cannot resolve is skipped and reported, never silently mispainted.
pub fn system_renderer(world: &World, dims: &Vec<SpriteDim>) -> (out: RenderOut)
    requires
        all_in_bounds(world.ents@),
    ensures
        frame_matches(out, world.ents@, dims@),
{
    let ghost s0 = world.ents@;
    let n = world.ents.len();

    let mut found = false;
    let mut cam = Camera { offset: Position { x: 0, y: 0 } };
    let mut i: usize = 0;
    while i < n
        invariant
            i <= n == s0.len(),
            world.ents@ == s0,
            !found ==> forall|k: int| 0 <= k < i ==> !(has_camera())(#[trigger] s0[k]),
            found ==> {
                &&& first_matching(s0, has_camera()) >= 0
                &&& cam == s0[first_matching(s0, has_camera())].camera->Some_0
            },
        decreases n - i,
    {
        if !found {
            let e = &world.ents[i];
            if let Some(c) = e.camera {
                cam = c;
                found = true;
                proof {
                    lemma_first_matching_found(s0, has_camera(), i as int);
                }
            }
        }
        i += 1;
    }
    if !found {
        proof {
            lemma_first_matching_none(s0, has_camera());
        }
        return RenderOut { cmds: Vec::new(), ships: Vec::new(), missing: Vec::new() };
    }
    let ghost fcam = first_matching(s0, has_camera());
    proof {
        crate::store::lemma_first_matching_is_first(s0, has_camera());
        assert(s0[fcam].in_bounds());
    }

    let mut items: Vec<DrawItem> = Vec::new();
    let mut j: usize = 0;
    while j < n
        invariant
            j <= n == s0.len(),
            world.ents@ == s0,
            items@ == draw_items(s0.take(j as int)),
        decreases n - j,
    {
        let e = &world.ents[j];
        if e.renderer.is_some() && e.position.is_some() && e.spaceship.is_none() {
            let r = e.renderer.unwrap();
            items.push(DrawItem { z: r.get_z(), ent: j });
        }
        proof {
            assert(s0.take(j + 1).drop_last() =~= s0.take(j as int));
            assert(s0.take(j + 1).last() == s0[j as int]);
            assert(items@ =~= draw_items(s0.take(j + 1)));
        }
        j += 1;
    }
    proof {
        assert(s0.take(n as int) =~= s0);
    }

    let sorted = sort_items(&items);
    let ghost its = sort_items_spec(draw_items(s0));
    proof {
        broadcast use vstd::seq_lib::group_to_multiset_ensures;

        lemma_draw_items_in_range(s0);
        crate::renderer::lemma_sort_items_spec(draw_items(s0));
        assert forall|k: int| 0 <= k < its.len() implies (#[trigger] its[k]).ent < n
            && drawable(s0[its[k].ent as int]) by {
            assert(its.to_multiset().contains(its[k]));
            assert(draw_items(s0).to_multiset().contains(its[k]));
            assert(draw_items(s0).contains(its[k]));
            let q = choose|q: int| 0 <= q < draw_items(s0).len() && draw_items(s0)[q] == its[k];
            assert(draw_items(s0)[q].ent < s0.len());
        }
    }

    let m = sorted.len();
    let mut cmds: Vec<DrawCmd> = Vec::new();
    let mut missing: Vec<u32> = Vec::new();
    let mut k: usize = 0;
    while k < m
        invariant
            k <= m == its.len(),
            n == s0.len(),
            world.ents@ == s0,
            all_in_bounds(s0),
            sorted@ == its,
            -1_002_000_000_000 <= cam.offset.x <= 1_002_000_000_000,
            -1_002_000_000_000 <= cam.offset.y <= 1_002_000_000_000,
            forall|q: int| 0 <= q < its.len() ==> (#[trigger] its[q]).ent < n
                && drawable(s0[its[q].ent as int]),
            cmds@ == cmds_of(s0, cam, dims@, its.take(k as int)),
            missing@ == missing_of(s0, cam, dims@, its.take(k as int)),
        decreases m - k,
    {
        let it = sorted[k];
        proof {
            assert(it == its[k as int]);
            assert(its[k as int].ent < n && drawable(s0[its[k as int].ent as int]));
        }
        let e = &world.ents[it.ent];
        let r = e.renderer.unwrap();
        let p = e.position.unwrap();
        proof {
            assert(s0[it.ent as int].in_bounds());
            assert(its.take(k + 1).drop_last() =~= its.take(k as int));
            assert(its.take(k + 1).last() == its[k as int]);
        }
        if r.is_fixed() {
            cmds.push(DrawCmd { shape: r, x: p.x, y: p.y });
        } else {
            match r {
                Renderer::SpriteRenderer { image, .. } => {
                    match find_dim(dims, image) {
                        Some(d) => {
                            let hx: i64 = (d.width as i64) * 500_000;
                            let hy: i64 = (d.height as i64) * 500_000;
                            cmds.push(DrawCmd {
                                shape: r,
                                x: p.x + cam.offset.x - hx,
                                y: p.y + cam.offset.y - hy,
                            });
                        },
                        None => {
                            missing.push(image);
                        },
                    }
                },
                _ => {
                    cmds.push(DrawCmd { shape: r, x: p.x + cam.offset.x, y: p.y + cam.offset.y });
                },
            }
        }
        proof {
            assert(cmds@ =~= cmds_of(s0, cam, dims@, its.take(k + 1)));
            assert(missing@ =~= missing_of(s0, cam, dims@, its.take(k + 1)));
        }
        k += 1;
    }
    proof {
        assert(its.take(m as int) =~= its);
    }

    let mut ships: Vec<ShipDraw> = Vec::new();
    let mut w: usize = 0;
    while w < n
        invariant
            w <= n == s0.len(),
            world.ents@ == s0,
            all_in_bounds(s0),
            -1_002_000_000_000 <= cam.offset.x <= 1_002_000_000_000,
            -1_002_000_000_000 <= cam.offset.y <= 1_002_000_000_000,
            ships@ == ship_draws(s0.take(w as int), cam),
        decreases n - w,
    {
        let e = &world.ents[w];
        if e.renderer.is_some() && e.position.is_some() && e.spaceship.is_some() {
            let r = e.renderer.unwrap();
            let p = e.position.unwrap();
            let sh = e.spaceship.unwrap();
            proof {
                assert(s0[w as int].in_bounds());
            }
            ships.push(ShipDraw {
                shape: r,
                x: p.x + cam.offset.x,
                y: p.y + cam.offset.y,
                heading_x: sh.heading_x,
                heading_y: sh.heading_y,
            });
        }
        proof {
            assert(s0.take(w + 1).drop_last() =~= s0.take(w as int));
            assert(s0.take(w + 1).last() == s0[w as int]);
            assert(ships@ =~= ship_draws(s0.take(w + 1), cam));
        }
        w += 1;
    }
    proof {
        assert(s0.take(n as int) =~= s0);
    }

    RenderOut { cmds, ships, missing }
}

/// The rows the camera follows: a piloted craft with a position.
pub open spec fn positioned_ship() -> spec_fn(Entity) -> bool {
    |e: Entity| e.spaceship is Some && e.position is Some
}

/// One axis of the camera clamp: when the craft would appear outside the
/// margin, the offset is set to place it exactly on the margin boundary.
pub open spec fn clamp_offset(o: int, pos: int, maxv: int) -> int {
    let o1 = if pos + o < CAM_MIN { CAM_MIN as int - pos } else { o };
    if pos + o1 > maxv {
        maxv - pos
    } else {
        o1
    }
}

/// Row `i` after the camera pass: cameras are clamped against the first
/// piloted craft, every other row is untouched.
pub open spec fn offset_upd(s: Seq<Entity>, i: int) -> Entity {
    let f = first_matching(s, positioned_ship());
    if f >= 0 && s[i].camera is Some {
        let p = s[f].position->Some_0;
        let c = s[i].camera->Some_0;
        Entity {
            camera: Some(Camera {
                offset: Position {
                    x: clamp_offset(c.offset.x as int, p.x as int, CAM_MAX_X as int) as i64,
                    y: clamp_offset(c.offset.y as int, p.y as int, CAM_MAX_Y as int) as i64,
                },
            }),
            ..s[i]
        }
    } else {
        s[i]
    }
}

/// The whole store after one camera pass.
pub open spec fn offset_upd_world(s: Seq<Entity>) -> Seq<Entity> {
    Seq::new(s.len(), |i: int| offset_upd(s, i))
}

/// A clamped offset stays within the camera's range whenever the ship it
/// frames is in range.
pub proof fn lemma_offset_upd_in_bounds(s: Seq<Entity>)
    requires
        all_in_bounds(s),
    ensures
        all_in_bounds(offset_upd_world(s)),
{
    assert forall|i: int| 0 <= i < offset_upd_world(s).len() implies
        (#[trigger] offset_upd_world(s)[i]).in_bounds() by {
        assert(s[i].in_bounds());
        let f = first_matching(s, positioned_ship());
        if f >= 0 {
            crate::store::lemma_first_matching_is_first(s, positioned_ship());
            assert(s[f].in_bounds());
        }
    }
}

/// The compositor's contract against a store: what each field of the
/// frame must hold, painted against the store's first camera.
pub open spec fn frame_matches(out: RenderOut, s: Seq<Entity>, dims: Seq<SpriteDim>) -> bool {
    let f = first_matching(s, has_camera());
    if f >= 0 {
        let cam = s[f].camera->Some_0;
        let its = sort_items_spec(draw_items(s));
        &&& out.cmds@ == cmds_of(s, cam, dims, its)
        &&& out.missing@ == missing_of(s, cam, dims, its)
        &&& out.ships@ == ship_draws(s, cam)
    } else {
        &&& out.cmds@ == Seq::<DrawCmd>::empty()
        &&& out.missing@ == Seq::<u32>::empty()
        &&& out.ships@ == Seq::<ShipDraw>::empty()
    }
}

/// Clamp every camera's offset so the piloted craft stays at least
/// `CAM_MIN` from the top and left edges and within the far margins, by
/// direct assignment to the boundary.
pub fn system_offset(world: &mut World)
    requires
        all_in_bounds(old(world).ents@),
    ensures
        final(world).ents@.len() == old(world).ents@.len(),
        forall|i: int| 0 <= i < old(world).ents@.len() ==>
            final(world).ents@[i] == offset_upd(old(world).ents@, i),
{
    let ghost s0 = world.ents@;
    let n = world.ents.len();

    let mut found = false;
    let mut ship_pos = Position { x: 0, y: 0 };
    let mut i: usize = 0;
    while i < n
        invariant
            i <= n == s0.len(),
            world.ents@ == s0,
            all_in_bounds(s0),
            !found ==> forall|k: int| 0 <= k < i ==> !(positioned_ship())(#[trigger] s0[k]),
            found ==> {
                &&& first_matching(s0, positioned_ship()) >= 0
                &&& ship_pos == s0[first_matching(s0, positioned_ship())].position->Some_0
            },
        decreases n - i,
    {
        if !found {
            let e = &world.ents[i];
            if e.spaceship.is_some() && e.position.is_some() {
                ship_pos = e.position.unwrap();
                found = true;
                proof {
                    lemma_first_matching_found(s0, positioned_ship(), i as int);
                }
            }
        }
        i += 1;
    }
    if !found {
        proof {
            lemma_first_matching_none(s0, positioned_ship());
        }
        return;
    }

    let ghost f = first_matching(s0, positioned_ship());
    proof {
        crate::store::lemma_first_matching_is_first(s0, positioned_ship());
        assert(s0[f].in_bounds());
    }
    let mut k: usize = 0;
    while k < n
        invariant
            k <= n == s0.len(),
            world.ents@.len() == s0.len(),
            all_in_bounds(s0),
            f == first_matching(s0, positioned_ship()),
            f >= 0,
            ship_pos == s0[f].position->Some_0,
            0 <= f < n,
            -1_000_000_000_000 <= ship_pos.x <= 1_000_000_000_000,
            -1_000_000_000_000 <= ship_pos.y <= 1_000_000_000_000,
            forall|q: int| 0 <= q < k ==> world.ents@[q] == offset_upd(s0, q),
            forall|q: int| k <= q < n ==> world.ents@[q] == s0[q],
        decreases n - k,
    {
        let e: Entity = world.ents[k];
        if let Some(cam) = e.camera {
            proof {
                assert(s0[k as int].in_bounds());
            }
            let mut ox = cam.offset.x;
            let mut oy = cam.offset.y;
            if ship_pos.x + ox < CAM_MIN {
                ox = CAM_MIN - ship_pos.x;
            }
            if ship_pos.x + ox > CAM_MAX_X {
                ox = CAM_MAX_X - ship_pos.x;
            }
            if ship_pos.y + oy < CAM_MIN {
                oy = CAM_MIN - ship_pos.y;
            }
            if ship_pos.y + oy > CAM_MAX_Y {
                oy = CAM_MAX_Y - ship_pos.y;
            }
            world.ents[k] = Entity {
                camera: Some(Camera { offset: Position { x: ox, y: oy } }),
                ..e
            };
        }
        k += 1;
    }
}

} // verus!
