//! Camera: screen projection, grayscale for remembered tiles, and the
//! field-of-view engine (Bresenham rays with sight-blocking checks).

use vstd::prelude::*;

use crate::color::{TermColor, TermStyle};
use crate::coords::{spec_chunk_coord, CHUNK_SIZE};
use crate::map::{Chunk, WorldMap};

verus! {

/// The viewport rectangle, in screen cells.
#[derive(Clone, Copy, PartialEq, Eq, Structural, Debug)]
pub struct ScreenRect {
    pub x: u16,
    pub y: u16,
    pub width: u16,
    pub height: u16,
}

impl ScreenRect {
    /// The rectangle stays within the 16-bit screen plane.
    pub open spec fn wf(&self) -> bool {
        self.x + self.width <= u16::MAX && self.y + self.height <= u16::MAX
    }

    /// A viewport at `(x, y)` of the given size.
    pub fn new(x: u16, y: u16, width: u16, height: u16) -> (r: ScreenRect)
        requires
            x + width <= u16::MAX,
            y + height <= u16::MAX,
        ensures
            r == (ScreenRect { x, y, width, height }),
            r.wf(),
    {
        ScreenRect { x, y, width, height }
    }
}

/// The magnitude of `b - a`.
pub open spec fn spec_abs_diff(a: int, b: int) -> int {
    if b >= a {
        b - a
    } else {
        a - b
    }
}

/// The coordinate reached after `e` unit steps from `a` toward `b`.
pub open spec fn spec_step_coord(a: int, b: int, e: int) -> int {
    if a <= b {
        a + e
    } else {
        a - e
    }
}

/// Whether the rasterizer takes an x step at state `(ex, ey)`, for a line
/// with axis magnitudes `dx`, `dy`. This is the classic error test
/// `2*err >= -dy` written over the step counts.
pub open spec fn bres_x_step(dx: int, dy: int, ex: int, ey: int) -> bool {
    2 * dx * (ey + 1) >= dy * (2 * ex + 1)
}

/// Whether the rasterizer takes a y step at state `(ex, ey)`: the classic
/// error test `2*err <= dx` over the step counts.
pub open spec fn bres_y_step(dx: int, dy: int, ex: int, ey: int) -> bool {
    dx * (2 * ey + 1) <= 2 * dy * (ex + 1)
}

/// At the x boundary the rasterizer never steps past the endpoint.
proof fn lemma_bres_no_x_overshoot(dx: int, dy: int, ey: int)
    requires
        dx >= 0,
        0 <= ey < dy,
    ensures
        !bres_x_step(dx, dy, dx, ey),
{
    assert(2 * dx * (ey + 1) < dy * (2 * dx + 1)) by (nonlinear_arith)
        requires
            dx >= 0,
            0 <= ey < dy,
    ;
}

/// At the y boundary the rasterizer never steps past the endpoint.
proof fn lemma_bres_no_y_overshoot(dx: int, dy: int, ex: int)
    requires
        dy >= 0,
        0 <= ex < dx,
    ensures
        !bres_y_step(dx, dy, ex, dy),
{
    assert(dx * (2 * dy + 1) > 2 * dy * (ex + 1)) by (nonlinear_arith)
        requires
            dy >= 0,
            0 <= ex < dx,
    ;
}

/// Away from the endpoint, the rasterizer always advances along at least one
/// axis.
proof fn lemma_bres_progress(dx: int, dy: int, ex: int, ey: int)
    requires
        0 <= ex <= dx,
        0 <= ey <= dy,
        !(ex == dx && ey == dy),
    ensures
        bres_x_step(dx, dy, ex, ey) || bres_y_step(dx, dy, ex, ey),
{
    if !bres_x_step(dx, dy, ex, ey) && !bres_y_step(dx, dy, ex, ey) {
        assert(false) by (nonlinear_arith)
            requires
                2 * dx * (ey + 1) < dy * (2 * ex + 1),
                dx * (2 * ey + 1) > 2 * dy * (ex + 1),
                dx >= 0,
                dy >= 0,
        ;
    }
}

/// The rasterized line from `(x0, y0)` to `(x1, y1)`, starting from the state
/// `ex` steps along x and `ey` steps along y.
pub open spec fn spec_bres_rest(x0: int, y0: int, x1: int, y1: int, ex: int, ey: int) -> Seq<
    (i32, i32),
>
    decreases spec_abs_diff(x0, x1) - ex + spec_abs_diff(y0, y1) - ey,
        when 0 <= ex <= spec_abs_diff(x0, x1) && 0 <= ey <= spec_abs_diff(y0, y1) && i32::MIN <= x0
            <= i32::MAX && i32::MIN <= y0 <= i32::MAX && i32::MIN <= x1 <= i32::MAX && i32::MIN
            <= y1 <= i32::MAX
        via spec_bres_rest_decreases
{
    let dx = spec_abs_diff(x0, x1);
    let dy = spec_abs_diff(y0, y1);
    let cur = (spec_step_coord(x0, x1, ex) as i32, spec_step_coord(y0, y1, ey) as i32);
    if ex == dx && ey == dy {
        seq![cur]
    } else {
        let ex2 = if bres_x_step(dx, dy, ex, ey) {
            ex + 1
        } else {
            ex
        };
        let ey2 = if bres_y_step(dx, dy, ex, ey) {
            ey + 1
        } else {
            ey
        };
        seq![cur] + spec_bres_rest(x0, y0, x1, y1, ex2, ey2)
    }
}

#[via_fn]
proof fn spec_bres_rest_decreases(x0: int, y0: int, x1: int, y1: int, ex: int, ey: int) {
    let dx = spec_abs_diff(x0, x1);
    let dy = spec_abs_diff(y0, y1);
    if !(ex == dx && ey == dy) {
        lemma_bres_progress(dx, dy, ex, ey);
        if ex == dx {
            lemma_bres_no_x_overshoot(dx, dy, ey);
        }
        if ey == dy {
            lemma_bres_no_y_overshoot(dx, dy, ex);
        }
    }
}

/// The rasterized line from `(x0, y0)` to `(x1, y1)`, both endpoints included.
pub open spec fn spec_bresenham_line(x0: i32, y0: i32, x1: i32, y1: i32) -> Seq<(i32, i32)> {
    spec_bres_rest(x0 as int, y0 as int, x1 as int, y1 as int, 0, 0)
}

/// How far along the ray from `(x0, y0)` a point lies: the sum of its axis
/// distances from the ray's origin.
pub open spec fn spec_ray_measure(x0: int, y0: int, p: (i32, i32)) -> int {
    spec_abs_diff(x0, p.0 as int) + spec_abs_diff(y0, p.1 as int)
}

/// A rasterized line starts at its current point, ends at the endpoint, and
/// walks strictly away from the origin: the ray measure grows at every step,
/// so no point (the endpoint in particular) occurs twice.
pub proof fn lemma_bres_rest_measure(x0: int, y0: int, x1: int, y1: int, ex: int, ey: int)
    requires
        0 <= ex <= spec_abs_diff(x0, x1),
        0 <= ey <= spec_abs_diff(y0, y1),
        i32::MIN <= x0 <= i32::MAX,
        i32::MIN <= y0 <= i32::MAX,
        i32::MIN <= x1 <= i32::MAX,
        i32::MIN <= y1 <= i32::MAX,
    ensures
        ({
            let line = spec_bres_rest(x0, y0, x1, y1, ex, ey);
            &&& line.len() >= 1
            &&& line[0] == (((spec_step_coord(x0, x1, ex)) as i32), ((spec_step_coord(
                y0,
                y1,
                ey,
            )) as i32))
            &&& line[line.len() - 1] == (((x1) as i32), ((y1) as i32))
            &&& spec_ray_measure(x0, y0, line[0]) == ex + ey
            &&& (forall|a: int, b: int|
                0 <= a < b < line.len() ==> spec_ray_measure(x0, y0, #[trigger] line[a])
                    < spec_ray_measure(x0, y0, #[trigger] line[b]))
        }),
    decreases spec_abs_diff(x0, x1) - ex + spec_abs_diff(y0, y1) - ey,
{
    let dx = spec_abs_diff(x0, x1);
    let dy = spec_abs_diff(y0, y1);
    let line = spec_bres_rest(x0, y0, x1, y1, ex, ey);
    let cur = (((spec_step_coord(x0, x1, ex)) as i32), ((spec_step_coord(y0, y1, ey)) as i32));
    assert(spec_ray_measure(x0, y0, cur) == ex + ey);
    if ex == dx && ey == dy {
        assert(line == seq![cur]);
        assert(spec_step_coord(x0, x1, dx) == x1);
        assert(spec_step_coord(y0, y1, dy) == y1);
    } else {
        lemma_bres_progress(dx, dy, ex, ey);
        if ex == dx {
            lemma_bres_no_x_overshoot(dx, dy, ey);
        }
        if ey == dy {
            lemma_bres_no_y_overshoot(dx, dy, ex);
        }
        let ex2 = if bres_x_step(dx, dy, ex, ey) {
            ex + 1
        } else {
            ex
        };
        let ey2 = if bres_y_step(dx, dy, ex, ey) {
            ey + 1
        } else {
            ey
        };
        lemma_bres_rest_measure(x0, y0, x1, y1, ex2, ey2);
        let rest = spec_bres_rest(x0, y0, x1, y1, ex2, ey2);
        assert(line == seq![cur] + rest);
        assert(line[0] == cur);
        assert(forall|i: int| 0 <= i < rest.len() ==> #[trigger] line[i + 1] == rest[i]);
        assert(line[line.len() - 1] == rest[rest.len() - 1]);
        assert forall|a: int, b: int|
            0 <= a < b < line.len() implies spec_ray_measure(x0, y0, #[trigger] line[a])
            < spec_ray_measure(x0, y0, #[trigger] line[b]) by {
            assert(line[b] == rest[b - 1]);
            if a == 0 {
                if b - 1 > 0 {
                    assert(spec_ray_measure(x0, y0, rest[0]) < spec_ray_measure(
                        x0,
                        y0,
                        rest[b - 1],
                    ));
                }
            } else {
                assert(line[a] == rest[a - 1]);
            }
        }
    }
}

/// Walks a rasterized line from index `i`: sight survives until either the
/// target cell is reached (always visible) or a missing or sight-blocking
/// tile stands in the way (unloaded tiles are opaque).
pub open spec fn spec_los_from(
    m: &WorldMap,
    line: Seq<(i32, i32)>,
    i: int,
    target: (i32, i32),
    z: i32,
) -> bool
    decreases line.len() - i,
        when 0 <= i <= line.len()
{
    if i >= line.len() {
        true
    } else if line[i] == target {
        true
    } else {
        match m.spec_get_tile(line[i].0 as int, line[i].1 as int, z) {
            Some(t) => !t.spec_block_sight() && spec_los_from(m, line, i + 1, target, z),
            None => false,
        }
    }
}

/// Whether the straight line from `start` to `target` (on `start`'s layer)
/// passes no sight-blocking tile before reaching the target.
pub open spec fn spec_in_line_of_sight(
    m: &WorldMap,
    start: (i32, i32, i32),
    target: (i32, i32),
) -> bool {
    spec_los_from(
        m,
        spec_bresenham_line(start.0, start.1, target.0, target.1),
        1,
        target,
        start.2,
    )
}

/// Sight along a strictly outward-walking line dies at a blocking (or
/// missing) cell that is not the target.
proof fn lemma_los_blocked_walk(
    m: &WorldMap,
    line: Seq<(i32, i32)>,
    target: (i32, i32),
    z: i32,
    x0: int,
    y0: int,
    i: int,
    k: int,
)
    requires
        1 <= i <= k < line.len(),
        line[line.len() - 1] == target,
        forall|a: int, b: int|
            0 <= a < b < line.len() ==> spec_ray_measure(x0, y0, #[trigger] line[a])
                < spec_ray_measure(x0, y0, #[trigger] line[b]),
        line[k] != target,
        (match m.spec_get_tile(line[k].0 as int, line[k].1 as int, z) {
            Some(t) => t.spec_block_sight(),
            None => true,
        }),
    ensures
        !spec_los_from(m, line, i, target, z),
    decreases k - i,
{
    assert(line[i] != target) by {
        if line[i] == target {
            if i < line.len() - 1 {
                assert(spec_ray_measure(x0, y0, line[i]) < spec_ray_measure(
                    x0,
                    y0,
                    line[line.len() - 1],
                ));
            }
        }
    }
    if i < k {
        lemma_los_blocked_walk(m, line, target, z, x0, y0, i + 1, k);
    }
}

/// Law: a sight-blocking (or unloaded) cell on the rasterized ray strictly
/// between the origin and the target hides the target — the line of sight
/// from `origin` to `target` fails. (The blocking cell itself stays visible
/// exactly as the line-of-sight definition says: a ray always reaches its own
/// target cell.)
pub proof fn lemma_blocker_occludes(
    m: &WorldMap,
    origin: (i32, i32, i32),
    target: (i32, i32),
    k: int,
)
    requires
        ({
            let line = spec_bresenham_line(origin.0, origin.1, target.0, target.1);
            &&& 1 <= k < line.len()
            &&& line[k] != target
            &&& (match m.spec_get_tile(line[k].0 as int, line[k].1 as int, origin.2) {
                Some(t) => t.spec_block_sight(),
                None => true,
            })
        }),
    ensures
        !spec_in_line_of_sight(m, origin, target),
{
    let line = spec_bresenham_line(origin.0, origin.1, target.0, target.1);
    lemma_bres_rest_measure(
        origin.0 as int,
        origin.1 as int,
        target.0 as int,
        target.1 as int,
        0,
        0,
    );
    lemma_los_blocked_walk(
        m,
        line,
        target,
        origin.2,
        origin.0 as int,
        origin.1 as int,
        1,
        k,
    );
}

/// Law: after a visibility refresh, a tile with a sight-blocking (or
/// unloaded) cell strictly between it and the origin on its rasterized ray is
/// in no layer's visible set.
pub proof fn lemma_occluded_tile_not_visible(
    m0: WorldMap,
    m1: WorldMap,
    origin: (i32, i32, i32),
    range: i32,
    target: (i32, i32),
    k: int,
    cx: int,
    cy: int,
    z: i32,
)
    requires
        visibility_refreshed(m0, m1, origin, range),
        m1.spec_loaded(cx, cy, z),
        ({
            let line = spec_bresenham_line(origin.0, origin.1, target.0, target.1);
            &&& 1 <= k < line.len()
            &&& line[k] != target
            &&& (match m0.spec_get_tile(line[k].0 as int, line[k].1 as int, origin.2) {
                Some(t) => t.spec_block_sight(),
                None => true,
            })
        }),
    ensures
        !m1.spec_layer(cx, cy, z).visible_tiles@.contains(target),
{
    lemma_blocker_occludes(&m0, origin, target, k);
    assert(m0.spec_loaded(cx, cy, z));
    if z == origin.2 {
        assert(!spec_visible_from(&m0, origin, range, target));
    } else {
        assert(m1.spec_layer(cx, cy, z).visible_tiles@ == Seq::<(i32, i32)>::empty());
    }
}

/// Whether `p` is in the field of view from `origin` with the given range:
/// inside the circular mask and in line of sight.
pub open spec fn spec_visible_from(
    m: &WorldMap,
    origin: (i32, i32, i32),
    range: i32,
    p: (i32, i32),
) -> bool {
    &&& range >= 0
    &&& (p.0 - origin.0) * (p.0 - origin.0) + (p.1 - origin.1) * (p.1 - origin.1) <= range * range
    &&& spec_in_line_of_sight(m, origin, p)
}

/// `m1` is `m0` with its visible sets recomputed from `origin` at `range`:
/// on the origin's layer a tile is visible exactly when it lies within the
/// circular mask and in line of sight (and then it is revealed too); every
/// other layer's visible set is cleared; revealed sets only grow; tiles and
/// the loaded chunks are untouched; and every visible tile is also revealed.
pub open spec fn visibility_refreshed(
    m0: WorldMap,
    m1: WorldMap,
    origin: (i32, i32, i32),
    range: i32,
) -> bool {
    &&& m1.wf()
    &&& (forall|cx: int, cy: int, zz: i32|
        m1.spec_loaded(cx, cy, zz) == m0.spec_loaded(cx, cy, zz))
    &&& (forall|x: int, y: int, zz: i32|
        m1.spec_get_tile(x, y, zz) == m0.spec_get_tile(x, y, zz))
    &&& (forall|cx: int, cy: int, zz: i32|
        #[trigger] m0.spec_loaded(cx, cy, zz) ==> {
            let l1 = m0.spec_layer(cx, cy, zz);
            let l2 = m1.spec_layer(cx, cy, zz);
            &&& l2.z == l1.z
            &&& l2.position == l1.position
            &&& l2.tiles == l1.tiles
            &&& (zz == origin.2 ==> (forall|p: (i32, i32)|
                #[trigger] l2.visible_tiles@.contains(p) <==> (spec_visible_from(
                    &m0,
                    origin,
                    range,
                    p,
                ) && l1.spec_owns(p.0 as int, p.1 as int))))
            &&& (zz == origin.2 ==> (forall|p: (i32, i32)|
                #[trigger] l2.revealed_tiles@.contains(p) <==> (l1.revealed_tiles@.contains(p) || (
                spec_visible_from(&m0, origin, range, p) && l1.spec_owns(
                    p.0 as int,
                    p.1 as int,
                )))))
            &&& (zz != origin.2 ==> l2.visible_tiles@ == Seq::<(i32, i32)>::empty()
                && l2.revealed_tiles@ == l1.revealed_tiles@)
            // the revealed set only grows
            &&& (forall|p: (i32, i32)|
                l1.revealed_tiles@.contains(p) ==> #[trigger] l2.revealed_tiles@.contains(p))
        })
    // visibility containment: every visible tile is also revealed
    &&& (forall|cx: int, cy: int, zz: i32|
        #[trigger] m1.spec_loaded(cx, cy, zz) ==> (forall|p: (i32, i32)|
            #[trigger] m1.spec_layer(cx, cy, zz).visible_tiles@.contains(p) ==> m1.spec_layer(
                cx,
                cy,
                zz,
            ).revealed_tiles@.contains(p)))
}

/// A point inside the circular mask lies inside the bounding square.
proof fn lemma_mask_bounds(px: int, py: int, ox: int, oy: int, range: int)
    requires
        range >= 0,
        (px - ox) * (px - ox) + (py - oy) * (py - oy) <= range * range,
    ensures
        ox - range <= px <= ox + range,
        oy - range <= py <= oy + range,
{
    assert(ox - range <= px <= ox + range && oy - range <= py <= oy + range) by (nonlinear_arith)
        requires
            range >= 0,
            (px - ox) * (px - ox) + (py - oy) * (py - oy) <= range * range,
    ;
}

/// The camera: the world coordinates drawn at the viewport's top-left corner,
/// plus the layer currently shown.
pub struct Camera {
    /// World position of the viewport's top-left corner; `.2` is the layer shown.
    pub position: (i32, i32, i32),
}

impl Camera {
    /// A camera anchored at the given world position.
    pub fn new(starting_position: (i32, i32, i32)) -> (r: Camera)
        ensures
            r.position == starting_position,
    {
        Camera { position: starting_position }
    }

    /// Screen projection: `screen = world - camera + viewport corner`, or
    /// nothing when the point falls outside the viewport.
    pub open spec fn spec_world_to_screen(
        &self,
        global: (i32, i32),
        area: ScreenRect,
    ) -> Option<(u16, u16)> {
        let sx = global.0 - self.position.0;
        let sy = global.1 - self.position.1;
        if 0 <= sx < area.width && 0 <= sy < area.height {
            Some(((area.x + sx) as u16, (area.y + sy) as u16))
        } else {
            None
        }
    }

    /// Projects world coordinates onto the viewport.
    pub fn world_to_screen(&self, global: (i32, i32), area: ScreenRect) -> (r: Option<(u16, u16)>)
        requires
            area.wf(),
        ensures
            r == self.spec_world_to_screen(global, area),
    {
        let sx: i64 = global.0 as i64 - self.position.0 as i64;
        let sy: i64 = global.1 as i64 - self.position.1 as i64;
        if 0 <= sx && sx < area.width as i64 && 0 <= sy && sy < area.height as i64 {
            Some((area.x + sx as u16, area.y + sy as u16))
        } else {
            None
        }
    }

    /// Whether the world point projects onto the viewport (its layer is not
    /// considered).
    pub fn is_point_on_screen(&self, global_position: (i32, i32, i32), area: ScreenRect) -> (r:
        bool)
        requires
            area.wf(),
        ensures
            r == (self.spec_world_to_screen(
                (global_position.0, global_position.1),
                area,
            ) is Some),
    {
        self.world_to_screen((global_position.0, global_position.1), area).is_some()
    }

    /// Whether a world-aligned rectangle overlaps the viewport.
    pub open spec fn spec_is_rect_on_screen(
        &self,
        top_left: (i32, i32),
        dimensions: (i32, i32),
        area: ScreenRect,
    ) -> bool {
        let right = top_left.0 + dimensions.0;
        let bottom = top_left.1 + dimensions.1;
        let screen_right = self.position.0 + area.width;
        let screen_bottom = self.position.1 + area.height;
        !(right <= self.position.0 || top_left.0 >= screen_right || bottom <= self.position.1
            || top_left.1 >= screen_bottom)
    }

    /// Whether a world-aligned rectangle overlaps the viewport.
    pub fn is_rect_on_screen(
        &self,
        top_left_coordinates: (i32, i32, i32),
        dimensions: (i32, i32),
        area: ScreenRect,
    ) -> (r: bool)
        ensures
            r == self.spec_is_rect_on_screen(
                (top_left_coordinates.0, top_left_coordinates.1),
                dimensions,
                area,
            ),
    {
        let left = top_left_coordinates.0 as i64;
        let top = top_left_coordinates.1 as i64;
        let right = left + dimensions.0 as i64;
        let bottom = top + dimensions.1 as i64;
        let screen_left = self.position.0 as i64;
        let screen_top = self.position.1 as i64;
        let screen_right = screen_left + area.width as i64;
        let screen_bottom = screen_top + area.height as i64;
        !(right <= screen_left || left >= screen_right || bottom <= screen_top || top
            >= screen_bottom)
    }

    /// Whether the chunk's square overlaps the viewport on the camera's layer.
    pub fn is_chunk_on_screen(&self, chunk: &Chunk, area: ScreenRect) -> (r: bool)
        requires
            chunk.wf(),
        ensures
            r == self.spec_is_rect_on_screen(
                (
                    (chunk.position.0 * CHUNK_SIZE) as i32,
                    (chunk.position.1 * CHUNK_SIZE) as i32,
                ),
                (CHUNK_SIZE, CHUNK_SIZE),
                area,
            ),
    {
        let top_left = chunk.get_chunk_world_position();
        self.is_rect_on_screen(
            (top_left.0, top_left.1, self.position.2),
            (CHUNK_SIZE, CHUNK_SIZE),
            area,
        )
    }

    /// The camera corner that centers the viewport on the player
    /// (clamped at the world's lower edge).
    pub fn get_center(&self, player_position: (i32, i32), area: ScreenRect) -> (r: (i32, i32))
        ensures
            r.0 == vstd::math::max(player_position.0 - area.width / 2, i32::MIN as int),
            r.1 == vstd::math::max(player_position.1 - area.height / 2, i32::MIN as int),
    {
        let cx: i64 = player_position.0 as i64 - (area.width / 2) as i64;
        let cy: i64 = player_position.1 as i64 - (area.height / 2) as i64;
        (
            if cx < i32::MIN as i64 {
                i32::MIN
            } else {
                cx as i32
            },
            if cy < i32::MIN as i64 {
                i32::MIN
            } else {
                cy as i32
            },
        )
    }

    /// The neutral gray of an RGB color's luminance: each channel becomes the
    /// floored average of the three. Non-RGB colors map to the fixed gray.
    pub open spec fn spec_grayed_out_color(color: TermColor) -> TermColor {
        match color {
            TermColor::Rgb(r, g, b) => {
                let gray = ((r + g + b) / 3) as u8;
                TermColor::Rgb(gray, gray, gray)
            },
            _ => TermColor::Gray,
        }
    }

    /// Grays out a color for a revealed-but-not-visible tile.
    pub fn grayed_out_color(color: TermColor) -> (r: TermColor)
        ensures
            r == Self::spec_grayed_out_color(color),
    {
        match color {
            TermColor::Rgb(r, g, b) => {
                let gray = ((r as u16 + g as u16 + b as u16) / 3) as u8;
                TermColor::Rgb(gray, gray, gray)
            },
            _ => TermColor::Gray,
        }
    }

    /// Grays out a style's foreground, when one is set.
    pub fn grayed_out_style(style: TermStyle) -> (r: TermStyle)
        ensures
            r.fg == match style.fg {
                Some(fg) => Some(Self::spec_grayed_out_color(fg)),
                None => None::<TermColor>,
            },
    {
        match style.fg {
            Some(fg) => TermStyle { fg: Some(Self::grayed_out_color(fg)) },
            None => TermStyle { fg: None },
        }
    }

    /// Rasterizes the line from `(x0, y0)` to `(x1, y1)`, both ends included.
    pub fn bresenham_line(x0: i32, y0: i32, x1: i32, y1: i32) -> (points: Vec<(i32, i32)>)
        ensures
            points@ == spec_bresenham_line(x0, y0, x1, y1),
    {
        let dx: i64 = if x1 >= x0 {
            x1 as i64 - x0 as i64
        } else {
            x0 as i64 - x1 as i64
        };
        let dy: i64 = if y1 >= y0 {
            y1 as i64 - y0 as i64
        } else {
            y0 as i64 - y1 as i64
        };
        let mut ex: i64 = 0;
        let mut ey: i64 = 0;
        let mut points: Vec<(i32, i32)> = Vec::new();
        loop
            invariant_except_break
                0 <= ex <= dx,
                0 <= ey <= dy,
                dx == spec_abs_diff(x0 as int, x1 as int),
                dy == spec_abs_diff(y0 as int, y1 as int),
                spec_bresenham_line(x0, y0, x1, y1) == points@ + spec_bres_rest(
                    x0 as int,
                    y0 as int,
                    x1 as int,
                    y1 as int,
                    ex as int,
                    ey as int,
                ),
            ensures
                points@ == spec_bresenham_line(x0, y0, x1, y1),
            decreases dx - ex + dy - ey,
        {
            let cx: i64 = if x0 <= x1 {
                x0 as i64 + ex
            } else {
                x0 as i64 - ex
            };
            let cy: i64 = if y0 <= y1 {
                y0 as i64 + ey
            } else {
                y0 as i64 - ey
            };
            let ghost prev = points@;
            points.push((cx as i32, cy as i32));
            if ex == dx && ey == dy {
                proof {
                    assert(spec_bres_rest(
                        x0 as int,
                        y0 as int,
                        x1 as int,
                        y1 as int,
                        ex as int,
                        ey as int,
                    ) == seq![((cx as i32), (cy as i32))]);
                    assert(points@ =~= spec_bresenham_line(x0, y0, x1, y1));
                }
                break ;
            }
            proof {
                assert(2 * (dx as i128) * ((ey as i128) + 1) <= 0x4_0000_0000_0000_0000
                    && 2 * (dx as i128) * ((ey as i128) + 1) >= 0 && (dy as i128) * (2 * (ex as i128)
                    + 1) <= 0x4_0000_0000_0000_0000 && (dy as i128) * (2 * (ex as i128) + 1) >= 0
                    && (dx as i128) * (2 * (ey as i128) + 1) <= 0x4_0000_0000_0000_0000 && (
                dx as i128) * (2 * (ey as i128) + 1) >= 0 && 2 * (dy as i128) * ((ex as i128) + 1)
                    <= 0x4_0000_0000_0000_0000 && 2 * (dy as i128) * ((ex as i128) + 1) >= 0)
                    by (nonlinear_arith)
                    requires
                        0 <= dx as i128 <= 0x1_0000_0000,
                        0 <= dy as i128 <= 0x1_0000_0000,
                        0 <= ex as i128 <= dx as i128,
                        0 <= ey as i128 <= dy as i128,
                ;
            }
            let xs: bool = 2 * (dx as i128) * (ey as i128 + 1) >= (dy as i128) * (2 * (ex as i128)
                + 1);
            let ys: bool = (dx as i128) * (2 * (ey as i128) + 1) <= 2 * (dy as i128) * (ex as i128
                + 1);
            proof {
                assert(xs == bres_x_step(dx as int, dy as int, ex as int, ey as int));
                assert(ys == bres_y_step(dx as int, dy as int, ex as int, ey as int));
                lemma_bres_progress(dx as int, dy as int, ex as int, ey as int);
                if ex == dx {
                    lemma_bres_no_x_overshoot(dx as int, dy as int, ey as int);
                }
                if ey == dy {
                    lemma_bres_no_y_overshoot(dx as int, dy as int, ex as int);
                }
                let ex2 = if xs {
                    ex + 1
                } else {
                    ex as int
                };
                let ey2 = if ys {
                    ey + 1
                } else {
                    ey as int
                };
                assert(spec_bres_rest(x0 as int, y0 as int, x1 as int, y1 as int, ex as int, ey as int)
                    == seq![((cx as i32), (cy as i32))] + spec_bres_rest(
                    x0 as int,
                    y0 as int,
                    x1 as int,
                    y1 as int,
                    ex2,
                    ey2,
                ));
                assert(points@ + spec_bres_rest(x0 as int, y0 as int, x1 as int, y1 as int, ex2, ey2)
                    =~= prev + spec_bres_rest(
                    x0 as int,
                    y0 as int,
                    x1 as int,
                    y1 as int,
                    ex as int,
                    ey as int,
                ));
            }
            if xs {
                ex = ex + 1;
            }
            if ys {
                ey = ey + 1;
            }
        }
        points
    }

    /// Whether the straight line from `start` to `target` (on `start`'s
    /// layer) reaches the target before any sight-blocking or unloaded tile.
    pub fn in_line_of_sight(&self, start: (i32, i32, i32), target: (i32, i32), map: &WorldMap) -> (r:
        bool)
        requires
            map.wf(),
        ensures
            r == spec_in_line_of_sight(map, start, target),
    {
        let line = Self::bresenham_line(start.0, start.1, target.0, target.1);
        let mut i: usize = 1;
        while i < line.len()
            invariant
                map.wf(),
                1 <= i <= line@.len(),
                line@ == spec_bresenham_line(start.0, start.1, target.0, target.1),
                spec_in_line_of_sight(map, start, target) == spec_los_from(
                    map,
                    line@,
                    i as int,
                    target,
                    start.2,
                ),
            decreases line@.len() - i,
        {
            let p = line[i];
            if p.0 == target.0 && p.1 == target.1 {
                return true;
            }
            match map.get_tile((p.0, p.1, start.2)) {
                Some(t) => {
                    if t.block_sight() {
                        return false;
                    }
                },
                None => {
                    return false;
                },
            }
            i = i + 1;
        }
        true
    }

    /// Computes the set of world coordinates visible from `player_position`:
    /// those within the circular range mask and in line of sight.
    pub fn compute_fov(&self, player_position: (i32, i32, i32), range: i32, map: &WorldMap) -> (vis:
        Vec<(i32, i32)>)
        requires
            map.wf(),
        ensures
            forall|p: (i32, i32)|
                vis@.contains(p) <==> spec_visible_from(map, player_position, range, p),
    {
        let mut vis: Vec<(i32, i32)> = Vec::new();
        if range < 0 {
            return vis;
        }
        let px = player_position.0 as i64;
        let py = player_position.1 as i64;
        let r64 = range as i64;
        let mut yy: i64 = py - r64;
        proof {
            assert forall|p: (i32, i32)|
                spec_visible_from(map, player_position, range, p) implies p.1 as int >= py - r64
                && px - r64 <= p.0 as int <= px + r64 by {
                lemma_mask_bounds(
                    p.0 as int,
                    p.1 as int,
                    player_position.0 as int,
                    player_position.1 as int,
                    range as int,
                );
            }
        }
        while yy <= py + r64
            invariant
                map.wf(),
                range >= 0,
                px == player_position.0 as int,
                py == player_position.1 as int,
                r64 == range as int,
                py - r64 <= yy <= py + r64 + 1,
                forall|p: (i32, i32)|
                    vis@.contains(p) <==> (spec_visible_from(map, player_position, range, p)
                        && p.1 < yy),
            decreases py + r64 + 1 - yy,
        {
            let mut xx: i64 = px - r64;
            proof {
                assert forall|p: (i32, i32)|
                    spec_visible_from(map, player_position, range, p) implies px - r64
                    <= p.0 as int <= px + r64 by {
                    lemma_mask_bounds(
                        p.0 as int,
                        p.1 as int,
                        player_position.0 as int,
                        player_position.1 as int,
                        range as int,
                    );
                }
            }
            while xx <= px + r64
                invariant
                    map.wf(),
                    range >= 0,
                    px == player_position.0 as int,
                    py == player_position.1 as int,
                    r64 == range as int,
                    py - r64 <= yy <= py + r64,
                    px - r64 <= xx <= px + r64 + 1,
                    forall|p: (i32, i32)|
                        vis@.contains(p) <==> (spec_visible_from(map, player_position, range, p)
                            && (p.1 < yy || (p.1 == yy && p.0 < xx))),
                decreases px + r64 + 1 - xx,
            {
                let ghost vis_before = vis@;
                if i32::MIN as i64 <= xx && xx <= i32::MAX as i64 && i32::MIN as i64 <= yy && yy
                    <= i32::MAX as i64 {
                    let ddx: i128 = (xx - px) as i128;
                    let ddy: i128 = (yy - py) as i128;
                    proof {
                        assert(ddx * ddx <= 0x4000_0000_0000_0000 && ddx * ddx >= 0 && ddy * ddy
                            <= 0x4000_0000_0000_0000 && ddy * ddy >= 0 && (range as i128) * (
                        range as i128) >= 0 && (range as i128) * (range as i128)
                            <= 0x4000_0000_0000_0000) by (nonlinear_arith)
                            requires
                                -0x8000_0000 <= ddx <= 0x8000_0000,
                                -0x8000_0000 <= ddy <= 0x8000_0000,
                                0 <= (range as i128) <= 0x8000_0000,
                        ;
                    }
                    if ddx * ddx + ddy * ddy <= (range as i128) * (range as i128) {
                        if self.in_line_of_sight(player_position, (xx as i32, yy as i32), map) {
                            vis.push((xx as i32, yy as i32));
                        }
                    }
                }
                proof {
                    let q = ((xx as i32), (yy as i32));
                    assert forall|p: (i32, i32)|
                        vis@.contains(p) <==> (spec_visible_from(map, player_position, range, p)
                            && (p.1 < yy || (p.1 == yy && p.0 < xx + 1))) by {
                        if vis@.contains(p) {
                            let i = choose|i: int| 0 <= i < vis@.len() && vis@[i] == p;
                            if i < vis_before.len() {
                                assert(vis_before.contains(p));
                            } else {
                                assert(p == q);
                            }
                        }
                        if spec_visible_from(map, player_position, range, p) && p.1 == yy && p.0
                            == xx {
                            assert(p == q);
                            assert(vis@[vis@.len() - 1] == p);
                            assert(vis@.contains(p));
                        }
                        if vis_before.contains(p) {
                            let i = choose|i: int| 0 <= i < vis_before.len() && vis_before[i] == p;
                            assert(vis@[i] == p);
                            assert(vis@.contains(p));
                        }
                    }
                }
                xx = xx + 1;
            }
            proof {
                assert forall|p: (i32, i32)|
                    spec_visible_from(map, player_position, range, p) && p.1 == yy implies p.0
                    < xx by {
                    lemma_mask_bounds(
                        p.0 as int,
                        p.1 as int,
                        player_position.0 as int,
                        player_position.1 as int,
                        range as int,
                    );
                }
            }
            yy = yy + 1;
        }
        proof {
            assert forall|p: (i32, i32)|
                spec_visible_from(map, player_position, range, p) implies p.1 < yy by {
                lemma_mask_bounds(
                    p.0 as int,
                    p.1 as int,
                    player_position.0 as int,
                    player_position.1 as int,
                    range as int,
                );
            }
        }
        vis
    }

    /// Recomputes the visible sets for the origin's layer: a tile becomes
    /// visible exactly when it lies within the circular range mask and in
    /// line of sight of `player_position`. Previously visible tiles are
    /// cleared on every layer; revealed sets only grow; tiles and loaded
    /// chunks are untouched; and every visible tile is also revealed.
    pub fn update_visibility(&self, player_position: (i32, i32, i32), range: i32, map: &mut WorldMap)
        requires
            old(map).wf(),
        ensures
            visibility_refreshed(*old(map), *final(map), player_position, range),
    {
        let visible = self.compute_fov(player_position, range, map);
        map.apply_visibility(player_position.2, &visible);
    }

    /// Whether the tile at `position` is on the camera's layer and currently
    /// in its chunk's visible set.
    pub open spec fn spec_is_visible_tile(&self, position: (i32, i32, i32), map: &WorldMap) -> bool {
        let cx = spec_chunk_coord(position.0 as int);
        let cy = spec_chunk_coord(position.1 as int);
        &&& position.2 == self.position.2
        &&& map.spec_loaded(cx, cy, position.2)
        &&& map.spec_layer(cx, cy, position.2).visible_tiles@.contains((position.0, position.1))
    }

    /// Whether the tile at `position` is on the camera's layer and currently
    /// visible.
    pub fn is_visible_tile(&self, position: (i32, i32, i32), map: &WorldMap) -> (r: bool)
        requires
            map.wf(),
        ensures
            r == self.spec_is_visible_tile(position, map),
    {
        if position.2 != self.position.2 {
            return false;
        }
        map.layer_visible_contains(position)
    }
}

} // verus!
