use vstd::prelude::*;

use crate::buffer2d::{lemma_index_in_grid, B2D, MASK_COLOR};
use crate::math::{max3, max_int, min3, min_int, orient, orient2d, Point2};
use crate::utils::{index_of, lemma_mul_i32};

verus! {

/// The largest magnitude of a screen coordinate that the edge arithmetic takes.
pub const MAX_COORD: i32 = 0x100_0000;

/// Whether `p` lies within the screen coordinates that the edge arithmetic takes.
pub open spec fn coord_ok(p: Point2) -> bool {
    -MAX_COORD <= p.x <= MAX_COORD && -MAX_COORD <= p.y <= MAX_COORD
}

/// Twice the signed area of the screen triangle `(p0, p1, p2)`.
pub open spec fn area(p0: Point2, p1: Point2, p2: Point2) -> int {
    orient(p0.x as int, p0.y as int, p1.x as int, p1.y as int, p2.x as int, p2.y as int)
}

proof fn lemma_orient_bound(a: Point2, b: Point2, x: int, y: int)
    requires
        coord_ok(a),
        coord_ok(b),
        -2 * MAX_COORD <= x <= 2 * MAX_COORD,
        -2 * MAX_COORD <= y <= 2 * MAX_COORD,
    ensures
        -0x40_0000_0000_0000 <= orient(a.x as int, a.y as int, b.x as int, b.y as int, x, y)
            <= 0x40_0000_0000_0000,
{
    let dx1 = b.x - a.x;
    let dy1 = y - a.y;
    let dy2 = b.y - a.y;
    let dx2 = x - a.x;
    assert(-0x400_0000 * 0x400_0000 <= dx1 * dy1 <= 0x400_0000 * 0x400_0000) by (nonlinear_arith)
        requires
            -0x400_0000 <= dx1 <= 0x400_0000,
            -0x400_0000 <= dy1 <= 0x400_0000,
    ;
    assert(-0x400_0000 * 0x400_0000 <= dy2 * dx2 <= 0x400_0000 * 0x400_0000) by (nonlinear_arith)
        requires
            -0x400_0000 <= dy2 <= 0x400_0000,
            -0x400_0000 <= dx2 <= 0x400_0000,
    ;
}

/// Twice the signed area of the screen triangle `(p0, p1, p2)`: positive for
/// the winding that faces the viewer.
pub fn signed_area(p0: Point2, p1: Point2, p2: Point2) -> (r: i64)
    requires
        coord_ok(p0),
        coord_ok(p1),
        coord_ok(p2),
    ensures
        r as int == area(p0, p1, p2),
{
    proof {
        lemma_orient_bound(p0, p1, p2.x as int, p2.y as int);
    }
    orient2d(p0, p1, p2.x, p2.y)
}

/// Whether the screen triangle faces the viewer; one with zero area is
/// degenerate and faces nobody.
pub open spec fn front_facing(p0: Point2, p1: Point2, p2: Point2) -> bool {
    area(p0, p1, p2) > 0
}

/// Whether the screen triangle `(p0, p1, p2)` is drawn rather than culled.
pub fn is_front_facing(p0: Point2, p1: Point2, p2: Point2) -> (r: bool)
    requires
        coord_ok(p0),
        coord_ok(p1),
        coord_ok(p2),
    ensures
        r == front_facing(p0, p1, p2),
{
    signed_area(p0, p1, p2) > 0
}

/// One pixel that a triangle covers, with the values of its three edge
/// functions there: `w0` for the edge `p1 -> p2`, `w1` for `p2 -> p0`, `w2`
/// for `p0 -> p1`. Each is the barycentric weight of the opposite vertex,
/// scaled by twice the triangle's area.
#[derive(Clone, Copy, Debug, PartialEq, Eq, Structural)]
pub struct Fragment {
    pub x: i32,
    pub y: i32,
    pub w0: i64,
    pub w1: i64,
    pub w2: i64,
}

/// The edge values of the triangle at pixel `(x, y)`.
pub open spec fn edge0(p0: Point2, p1: Point2, p2: Point2, x: int, y: int) -> int {
    orient(p1.x as int, p1.y as int, p2.x as int, p2.y as int, x, y)
}

pub open spec fn edge1(p0: Point2, p1: Point2, p2: Point2, x: int, y: int) -> int {
    orient(p2.x as int, p2.y as int, p0.x as int, p0.y as int, x, y)
}

pub open spec fn edge2(p0: Point2, p1: Point2, p2: Point2, x: int, y: int) -> int {
    orient(p0.x as int, p0.y as int, p1.x as int, p1.y as int, x, y)
}

/// Whether the pixel `(x, y)` is walked: within the triangle's bounding box,
/// whose right and bottom edges are left out, and within the target.
pub open spec fn in_walk(
    p0: Point2,
    p1: Point2,
    p2: Point2,
    width: int,
    height: int,
    x: int,
    y: int,
) -> bool {
    &&& min_int(p0.x as int, min_int(p1.x as int, p2.x as int)) <= x
    &&& x < max_int(p0.x as int, max_int(p1.x as int, p2.x as int))
    &&& min_int(p0.y as int, min_int(p1.y as int, p2.y as int)) <= y
    &&& y < max_int(p0.y as int, max_int(p1.y as int, p2.y as int))
    &&& 0 <= x < width
    &&& 0 <= y < height
}

/// Whether the front-facing triangle covers the walked pixel `(x, y)`: all
/// three edge values are nonnegative there.
pub open spec fn covers(
    p0: Point2,
    p1: Point2,
    p2: Point2,
    width: int,
    height: int,
    x: int,
    y: int,
) -> bool {
    &&& front_facing(p0, p1, p2)
    &&& in_walk(p0, p1, p2, width, height, x, y)
    &&& edge0(p0, p1, p2, x, y) >= 0
    &&& edge1(p0, p1, p2, x, y) >= 0
    &&& edge2(p0, p1, p2, x, y) >= 0
}

/// Whether pixel `a` comes before pixel `b` in row-major order.
pub open spec fn before(a: Fragment, b: Fragment) -> bool {
    a.y < b.y || (a.y == b.y && a.x < b.x)
}

/// `frags` are the pixels that the triangle covers, each once, in row-major
/// order, with their edge values.
pub open spec fn is_coverage(
    p0: Point2,
    p1: Point2,
    p2: Point2,
    width: int,
    height: int,
    frags: Seq<Fragment>,
) -> bool {
    &&& forall|k: int|
        0 <= k < frags.len() ==> {
            let f = #[trigger] frags[k];
            &&& covers(p0, p1, p2, width, height, f.x as int, f.y as int)
            &&& f.w0 == edge0(p0, p1, p2, f.x as int, f.y as int)
            &&& f.w1 == edge1(p0, p1, p2, f.x as int, f.y as int)
            &&& f.w2 == edge2(p0, p1, p2, f.x as int, f.y as int)
        }
    &&& forall|j: int, k: int| 0 <= j < k < frags.len() ==> before(#[trigger] frags[j], #[trigger] frags[k])
    &&& forall|x: int, y: int|
        covers(p0, p1, p2, width, height, x, y) ==> exists|k: int|
            0 <= k < frags.len() && #[trigger] frags[k].x == x && frags[k].y == y
}

proof fn lemma_orient_step_x(ax: int, ay: int, bx: int, by: int, x: int, y: int)
    ensures
        orient(ax, ay, bx, by, x + 1, y) == orient(ax, ay, bx, by, x, y) + (ay - by),
{
    assert((by - ay) * (x + 1 - ax) == (by - ay) * (x - ax) + (by - ay)) by (nonlinear_arith);
}

proof fn lemma_orient_step_y(ax: int, ay: int, bx: int, by: int, x: int, y: int)
    ensures
        orient(ax, ay, bx, by, x, y + 1) == orient(ax, ay, bx, by, x, y) + (bx - ax),
{
    assert((bx - ax) * (y + 1 - ay) == (bx - ax) * (y - ay) + (bx - ax)) by (nonlinear_arith);
}

/// Whether pixel `(px, py)` comes before pixel `(x, y)` in row-major order.
pub open spec fn pixel_before(px: int, py: int, x: int, y: int) -> bool {
    py < y || (py == y && px < x)
}

/// `frags` is the coverage of the triangle as far as the walk has come: up to,
/// and without, pixel `(x, y)`.
pub open spec fn coverage_upto(
    p0: Point2,
    p1: Point2,
    p2: Point2,
    width: int,
    height: int,
    frags: Seq<Fragment>,
    x: int,
    y: int,
) -> bool {
    &&& forall|k: int|
        0 <= k < frags.len() ==> {
            let f = #[trigger] frags[k];
            &&& covers(p0, p1, p2, width, height, f.x as int, f.y as int)
            &&& f.w0 == edge0(p0, p1, p2, f.x as int, f.y as int)
            &&& f.w1 == edge1(p0, p1, p2, f.x as int, f.y as int)
            &&& f.w2 == edge2(p0, p1, p2, f.x as int, f.y as int)
            &&& pixel_before(f.x as int, f.y as int, x, y)
        }
    &&& forall|j: int, k: int| 0 <= j < k < frags.len() ==> before(#[trigger] frags[j], #[trigger] frags[k])
    &&& forall|px: int, py: int|
        covers(p0, p1, p2, width, height, px, py) && pixel_before(px, py, x, y) ==> exists|k: int|
            0 <= k < frags.len() && #[trigger] frags[k].x == px && frags[k].y == py
}

/// The pixels that the screen triangle `(p0, p1, p2)` covers within a target
/// of `width` by `height` pixels, in row-major order, with their edge values.
/// A triangle that does not face the viewer covers none. The edge values are
/// stepped from pixel to pixel rather than computed anew.
pub fn triangle_coverage(p0: Point2, p1: Point2, p2: Point2, width: i32, height: i32) -> (r: Vec<
    Fragment,
>)
    requires
        coord_ok(p0),
        coord_ok(p1),
        coord_ok(p2),
    ensures
        is_coverage(p0, p1, p2, width as int, height as int, r@),
{
    let mut out: Vec<Fragment> = Vec::new();
    if !is_front_facing(p0, p1, p2) {
        return out;
    }
    let min_x = min3(p0.x, p1.x, p2.x);
    let max_x = max3(p0.x, p1.x, p2.x);
    let min_y = min3(p0.y, p1.y, p2.y);
    let max_y = max3(p0.y, p1.y, p2.y);
    let x0: i32 = if min_x < 0 { 0 } else { min_x };
    let y0: i32 = if min_y < 0 { 0 } else { min_y };
    let x1: i32 = if max_x > width { width } else { max_x };
    let y1: i32 = if max_y > height { height } else { max_y };
    if x0 >= x1 || y0 >= y1 {
        proof {
            assert forall|px: int, py: int| !covers(p0, p1, p2, width as int, height as int, px, py) by {}
        }
        return out;
    }
    let a12 = p1.y as i64 - p2.y as i64;
    let b12 = p2.x as i64 - p1.x as i64;
    let a20 = p2.y as i64 - p0.y as i64;
    let b20 = p0.x as i64 - p2.x as i64;
    let a01 = p0.y as i64 - p1.y as i64;
    let b01 = p1.x as i64 - p0.x as i64;
    proof {
        lemma_orient_bound(p1, p2, x0 as int, y0 as int);
        lemma_orient_bound(p2, p0, x0 as int, y0 as int);
        lemma_orient_bound(p0, p1, x0 as int, y0 as int);
    }
    let mut row0 = orient2d(p1, p2, x0, y0);
    let mut row1 = orient2d(p2, p0, x0, y0);
    let mut row2 = orient2d(p0, p1, x0, y0);
    let ghost w = width as int;
    let ghost h = height as int;
    let mut y = y0;
    while y < y1
        invariant
            coord_ok(p0) && coord_ok(p1) && coord_ok(p2),
            front_facing(p0, p1, p2),
            x0 == max_int(min_int(p0.x as int, min_int(p1.x as int, p2.x as int)), 0),
            y0 == max_int(min_int(p0.y as int, min_int(p1.y as int, p2.y as int)), 0),
            x1 == min_int(max_int(p0.x as int, max_int(p1.x as int, p2.x as int)), w),
            y1 == min_int(max_int(p0.y as int, max_int(p1.y as int, p2.y as int)), h),
            w == width && h == height,
            x0 < x1 && y0 < y1,
            y0 <= y <= y1,
            a12 == p1.y - p2.y && b12 == p2.x - p1.x,
            a20 == p2.y - p0.y && b20 == p0.x - p2.x,
            a01 == p0.y - p1.y && b01 == p1.x - p0.x,
            row0 == edge0(p0, p1, p2, x0 as int, y as int),
            row1 == edge1(p0, p1, p2, x0 as int, y as int),
            row2 == edge2(p0, p1, p2, x0 as int, y as int),
            coverage_upto(p0, p1, p2, w, h, out@, x0 as int, y as int),
        decreases y1 - y,
    {
        let mut e0 = row0;
        let mut e1 = row1;
        let mut e2 = row2;
        let mut x = x0;
        while x < x1
            invariant
                coord_ok(p0) && coord_ok(p1) && coord_ok(p2),
                front_facing(p0, p1, p2),
                x0 == max_int(min_int(p0.x as int, min_int(p1.x as int, p2.x as int)), 0),
                y0 == max_int(min_int(p0.y as int, min_int(p1.y as int, p2.y as int)), 0),
                x1 == min_int(max_int(p0.x as int, max_int(p1.x as int, p2.x as int)), w),
                y1 == min_int(max_int(p0.y as int, max_int(p1.y as int, p2.y as int)), h),
                w == width && h == height,
                x0 <= x <= x1,
                y0 <= y < y1,
                a12 == p1.y - p2.y && b12 == p2.x - p1.x,
                a20 == p2.y - p0.y && b20 == p0.x - p2.x,
                a01 == p0.y - p1.y && b01 == p1.x - p0.x,
                e0 == edge0(p0, p1, p2, x as int, y as int),
                e1 == edge1(p0, p1, p2, x as int, y as int),
                e2 == edge2(p0, p1, p2, x as int, y as int),
                coverage_upto(p0, p1, p2, w, h, out@, x as int, y as int),
            decreases x1 - x,
        {
            let ghost prev = out@;
            if e0 >= 0 && e1 >= 0 && e2 >= 0 {
                out.push(Fragment { x, y, w0: e0, w1: e1, w2: e2 });
                proof {
                    assert forall|px: int, py: int|
                        covers(p0, p1, p2, w, h, px, py) && pixel_before(
                            px,
                            py,
                            x + 1,
                            y as int,
                        ) implies exists|k: int|
                        0 <= k < out@.len() && #[trigger] out@[k].x == px && out@[k].y == py by {
                        if px == x && py == y {
                            assert(out@[prev.len() as int].x == px);
                        } else {
                            assert(pixel_before(px, py, x as int, y as int));
                            let k = choose|k: int|
                                0 <= k < prev.len() && #[trigger] prev[k].x == px && prev[k].y
                                    == py;
                            assert(out@[k] == prev[k]);
                        }
                    }
                }
            } else {
                proof {
                    assert forall|px: int, py: int|
                        covers(p0, p1, p2, w, h, px, py) && pixel_before(
                            px,
                            py,
                            x + 1,
                            y as int,
                        ) implies exists|k: int|
                        0 <= k < out@.len() && #[trigger] out@[k].x == px && out@[k].y == py by {
                        if px == x && py == y {
                            assert(!covers(p0, p1, p2, w, h, px, py));
                        } else {
                            assert(pixel_before(px, py, x as int, y as int));
                        }
                    }
                }
            }
            proof {
                lemma_orient_step_x(p1.x as int, p1.y as int, p2.x as int, p2.y as int, x as int, y as int);
                lemma_orient_step_x(p2.x as int, p2.y as int, p0.x as int, p0.y as int, x as int, y as int);
                lemma_orient_step_x(p0.x as int, p0.y as int, p1.x as int, p1.y as int, x as int, y as int);
                lemma_orient_bound(p1, p2, x + 1, y as int);
                lemma_orient_bound(p2, p0, x + 1, y as int);
                lemma_orient_bound(p0, p1, x + 1, y as int);
            }
            e0 = e0 + a12;
            e1 = e1 + a20;
            e2 = e2 + a01;
            x = x + 1;
        }
        proof {
            lemma_orient_step_y(p1.x as int, p1.y as int, p2.x as int, p2.y as int, x0 as int, y as int);
            lemma_orient_step_y(p2.x as int, p2.y as int, p0.x as int, p0.y as int, x0 as int, y as int);
            lemma_orient_step_y(p0.x as int, p0.y as int, p1.x as int, p1.y as int, x0 as int, y as int);
            lemma_orient_bound(p1, p2, x0 as int, y + 1);
            lemma_orient_bound(p2, p0, x0 as int, y + 1);
            lemma_orient_bound(p0, p1, x0 as int, y + 1);
            assert forall|px: int, py: int|
                covers(p0, p1, p2, w, h, px, py) && pixel_before(px, py, x0 as int, y + 1) implies exists|k: int|
                0 <= k < out@.len() && #[trigger] out@[k].x == px && out@[k].y == py by {
                assert(pixel_before(px, py, x as int, y as int));
            }
        }
        row0 = row0 + b12;
        row1 = row1 + b20;
        row2 = row2 + b01;
        y = y + 1;
    }
    proof {
        assert forall|px: int, py: int| covers(p0, p1, p2, w, h, px, py) implies exists|k: int|
            0 <= k < out@.len() && #[trigger] out@[k].x == px && out@[k].y == py by {
            assert(pixel_before(px, py, x0 as int, y as int));
        }
    }
    out
}

/// The part `[start, end)` of the span of `size` pixels from `offset` that
/// lies in `[0, limit)`; empty when `start >= end`.
pub fn clip_span(offset: i32, size: i32, limit: i32) -> (r: (i32, i32))
    requires
        size >= 0,
    ensures
        r.0 == max_int(offset as int, 0),
        r.1 == min_int(offset + size, limit as int),
{
    let start = if offset < 0 {
        0
    } else {
        offset
    };
    let end64 = offset as i64 + size as i64;
    let end = if end64 > limit as i64 {
        limit
    } else {
        end64 as i32
    };
    (start, end)
}

/// What the renderer writes into the color buffer.
#[derive(Clone, Copy, Debug, PartialEq, Eq, Structural)]
pub enum RenderDebugMode {
    /// Shaded or textured colors.
    Shaded,
    /// Each pixel's depth as a shade of gray.
    ZBuffer,
    /// Reserved for marking what can be clicked.
    Clickables,
}

/// The color that `begin` clears the color buffer to.
pub const CLEAR_COLOR: u16 = 7500;

/// The depth that `begin` clears the depth buffer to: farther than any fragment.
pub const FAR_DEPTH: u32 = u32::MAX;

/// The color and depth buffers after a fragment of depth `d` and color `c`
/// is offered to cell `i`: it is written only when strictly nearer than what
/// the cell holds.
pub open spec fn depth_write(
    buffers: (Seq<u16>, Seq<u32>),
    i: int,
    d: u32,
    c: u16,
) -> (Seq<u16>, Seq<u32>) {
    if d < buffers.1[i] {
        (buffers.0.update(i, c), buffers.1.update(i, d))
    } else {
        buffers
    }
}

/// The buffers after the first `n` of `frags` are offered, the `k`-th with
/// depth `depths[k]` and color `colors[k]`; a fragment outside the target is
/// skipped.
pub open spec fn depth_writes(
    buffers: (Seq<u16>, Seq<u32>),
    width: int,
    height: int,
    frags: Seq<Fragment>,
    depths: Seq<u32>,
    colors: Seq<u16>,
    n: nat,
) -> (Seq<u16>, Seq<u32>)
    decreases n,
{
    if n == 0 {
        buffers
    } else {
        let prev = depth_writes(buffers, width, height, frags, depths, colors, (n - 1) as nat);
        let f = frags[n - 1];
        if 0 <= f.x < width && 0 <= f.y < height {
            depth_write(
                prev,
                index_of(f.x as int, f.y as int, width),
                depths[n - 1],
                colors[n - 1],
            )
        } else {
            prev
        }
    }
}

/// The depth-tested rasterizer's frame state: a color buffer, a depth buffer
/// of one cell per pixel, and counters of what each frame drew.
pub struct Renderer {
    pub color_buffer: B2D,
    pub z_buffer: Vec<u32>,
    pub debug_mode: RenderDebugMode,
    pub stat_tris: u32,
    pub stat_sprites: u32,
}

impl Renderer {
    /// The color buffer is well formed and the depth buffer has one cell per pixel.
    pub open spec fn wf(&self) -> bool {
        &&& self.color_buffer.wf()
        &&& self.z_buffer@.len() == self.color_buffer.pixels@.len()
    }

    /// The color and depth buffers.
    pub open spec fn buffers(&self) -> (Seq<u16>, Seq<u32>) {
        (self.color_buffer.pixels@, self.z_buffer@)
    }

    /// A renderer that draws into `color_buffer`.
    pub fn new(color_buffer: B2D) -> (r: Self)
        requires
            color_buffer.wf(),
        ensures
            r.wf(),
            r.color_buffer == color_buffer,
            r.debug_mode == RenderDebugMode::Shaded,
            r.stat_tris == 0,
            r.stat_sprites == 0,
    {
        let n = color_buffer.pixels.len();
        Renderer {
            color_buffer,
            z_buffer: vec![0; n],
            debug_mode: RenderDebugMode::Shaded,
            stat_tris: 0,
            stat_sprites: 0,
        }
    }

    /// Starts a frame: the color buffer is cleared to `CLEAR_COLOR`, the depth
    /// buffer to `FAR_DEPTH`, and the counters to 0.
    pub fn begin(&mut self)
        requires
            old(self).wf(),
        ensures
            final(self).wf(),
            final(self).color_buffer.width == old(self).color_buffer.width,
            final(self).color_buffer.height == old(self).color_buffer.height,
            final(self).debug_mode == old(self).debug_mode,
            forall|i: int|
                0 <= i < final(self).z_buffer@.len() ==> final(self).z_buffer@[i] == FAR_DEPTH
                    && final(self).color_buffer.pixels@[i] == CLEAR_COLOR,
            final(self).stat_tris == 0,
            final(self).stat_sprites == 0,
    {
        let n = self.z_buffer.len();
        let mut i: usize = 0;
        while i < n
            invariant
                n == self.z_buffer@.len(),
                self.wf(),
                self.color_buffer.width == old(self).color_buffer.width,
                self.color_buffer.height == old(self).color_buffer.height,
                self.debug_mode == old(self).debug_mode,
                i <= n,
                forall|j: int|
                    0 <= j < i ==> self.z_buffer@[j] == FAR_DEPTH && self.color_buffer.pixels@[j]
                        == CLEAR_COLOR,
            decreases n - i,
        {
            self.z_buffer.set(i, FAR_DEPTH);
            self.color_buffer.set_color_by_index(i, CLEAR_COLOR);
            i = i + 1;
        }
        self.stat_tris = 0;
        self.stat_sprites = 0;
    }

    /// Offers the fragment of depth `depth` and color `color` to pixel
    /// `(x, y)`. It is written, to both buffers, only when the pixel lies in
    /// the target and the fragment is strictly nearer than what the pixel
    /// holds; the result says whether it was.
    pub fn write_fragment(&mut self, x: i32, y: i32, depth: u32, color: u16) -> (r: bool)
        requires
            old(self).wf(),
        ensures
            final(self).wf(),
            final(self).color_buffer.width == old(self).color_buffer.width,
            final(self).color_buffer.height == old(self).color_buffer.height,
            final(self).debug_mode == old(self).debug_mode,
            final(self).stat_tris == old(self).stat_tris,
            final(self).stat_sprites == old(self).stat_sprites,
            final(self).buffers() == if old(self).color_buffer.in_bounds(x as int, y as int) {
                depth_write(
                    old(self).buffers(),
                    index_of(x as int, y as int, old(self).color_buffer.width as int),
                    depth,
                    color,
                )
            } else {
                old(self).buffers()
            },
            r == (old(self).color_buffer.in_bounds(x as int, y as int) && depth < old(
                self,
            ).z_buffer@[index_of(x as int, y as int, old(self).color_buffer.width as int)]),
    {
        if x < 0 || x >= self.color_buffer.width || y < 0 || y >= self.color_buffer.height {
            return false;
        }
        proof {
            lemma_index_in_grid(
                x as int,
                y as int,
                self.color_buffer.width as int,
                self.color_buffer.height as int,
            );
            lemma_mul_i32(y as int, self.color_buffer.width as int);
        }
        let len = self.z_buffer.len();
        let i = (y as i64 * self.color_buffer.width as i64 + x as i64) as usize;
        if depth < self.z_buffer[i] {
            self.z_buffer.set(i, depth);
            self.color_buffer.set_color_by_index(i, color);
            true
        } else {
            false
        }
    }

    /// As `write_fragment`, but a fragment of `MASK_COLOR` is transparent and
    /// writes nothing, not even its depth.
    pub fn write_masked_fragment(&mut self, x: i32, y: i32, depth: u32, color: u16) -> (r: bool)
        requires
            old(self).wf(),
        ensures
            final(self).wf(),
            final(self).color_buffer.width == old(self).color_buffer.width,
            final(self).color_buffer.height == old(self).color_buffer.height,
            final(self).debug_mode == old(self).debug_mode,
            final(self).stat_tris == old(self).stat_tris,
            final(self).stat_sprites == old(self).stat_sprites,
            final(self).buffers() == if color != MASK_COLOR && old(self).color_buffer.in_bounds(
                x as int,
                y as int,
            ) {
                depth_write(
                    old(self).buffers(),
                    index_of(x as int, y as int, old(self).color_buffer.width as int),
                    depth,
                    color,
                )
            } else {
                old(self).buffers()
            },
            r == (color != MASK_COLOR && old(self).color_buffer.in_bounds(x as int, y as int)
                && depth < old(self).z_buffer@[index_of(
                x as int,
                y as int,
                old(self).color_buffer.width as int,
            )]),
    {
        if color == MASK_COLOR {
            return false;
        }
        self.write_fragment(x, y, depth, color)
    }

    /// Offers each of `frags`, in order, with the depth and color at the same
    /// position of `depths` and `colors`; then counts one more triangle.
    pub fn draw_fragments(&mut self, frags: &Vec<Fragment>, depths: &Vec<u32>, colors: &Vec<u16>)
        requires
            old(self).wf(),
            depths@.len() == frags@.len(),
            colors@.len() == frags@.len(),
        ensures
            final(self).wf(),
            final(self).color_buffer.width == old(self).color_buffer.width,
            final(self).color_buffer.height == old(self).color_buffer.height,
            final(self).debug_mode == old(self).debug_mode,
            final(self).buffers() == depth_writes(
                old(self).buffers(),
                old(self).color_buffer.width as int,
                old(self).color_buffer.height as int,
                frags@,
                depths@,
                colors@,
                frags@.len(),
            ),
            final(self).stat_tris == if old(self).stat_tris < u32::MAX {
                old(self).stat_tris + 1
            } else {
                old(self).stat_tris as int
            },
            final(self).stat_sprites == old(self).stat_sprites,
    {
        let mut k: usize = 0;
        while k < frags.len()
            invariant
                self.wf(),
                self.color_buffer.width == old(self).color_buffer.width,
                self.color_buffer.height == old(self).color_buffer.height,
                self.debug_mode == old(self).debug_mode,
                self.stat_tris == old(self).stat_tris,
                self.stat_sprites == old(self).stat_sprites,
                depths@.len() == frags@.len(),
                colors@.len() == frags@.len(),
                k <= frags@.len(),
                self.buffers() == depth_writes(
                    old(self).buffers(),
                    old(self).color_buffer.width as int,
                    old(self).color_buffer.height as int,
                    frags@,
                    depths@,
                    colors@,
                    k as nat,
                ),
            decreases frags@.len() - k,
        {
            let f = frags[k];
            self.write_fragment(f.x, f.y, depths[k], colors[k]);
            k = k + 1;
        }
        self.stat_tris = self.stat_tris.saturating_add(1);
    }
}

/// The depth test makes the result independent of the order of two
/// fragments at one pixel: offered in either order, two fragments of
/// different depths leave the same buffers, and the pixel shows the nearer
/// one whenever it is nearer than what the pixel held.
pub proof fn lemma_depth_order_independent(
    buffers: (Seq<u16>, Seq<u32>),
    i: int,
    d1: u32,
    c1: u16,
    d2: u32,
    c2: u16,
)
    requires
        0 <= i < buffers.0.len(),
        buffers.0.len() == buffers.1.len(),
        d1 != d2,
    ensures
        depth_write(depth_write(buffers, i, d1, c1), i, d2, c2) == depth_write(
            depth_write(buffers, i, d2, c2),
            i,
            d1,
            c1,
        ),
        d1 < d2 && d1 < buffers.1[i] ==> depth_write(depth_write(buffers, i, d1, c1), i, d2, c2).0[i] == c1,
        d2 < d1 && d2 < buffers.1[i] ==> depth_write(depth_write(buffers, i, d1, c1), i, d2, c2).0[i] == c2,
{
    let a = depth_write(depth_write(buffers, i, d1, c1), i, d2, c2);
    let b = depth_write(depth_write(buffers, i, d2, c2), i, d1, c1);
    assert(a.0 =~= b.0);
    assert(a.1 =~= b.1);
}

/// Culling is decided by winding alone: of a triangle and the same triangle
/// with two vertices swapped, exactly one faces the viewer, unless the
/// triangle is degenerate; and a triangle that does not face the viewer
/// covers no pixel.
pub proof fn lemma_winding_exclusive(p0: Point2, p1: Point2, p2: Point2, width: int, height: int)
    requires
        area(p0, p1, p2) != 0,
    ensures
        front_facing(p0, p1, p2) != front_facing(p0, p2, p1),
        forall|frags: Seq<Fragment>|
            !front_facing(p0, p1, p2) && is_coverage(p0, p1, p2, width, height, frags)
                ==> frags.len() == 0,
{
    let (ax, ay, bx, by, cx, cy) = (
        p0.x as int,
        p0.y as int,
        p1.x as int,
        p1.y as int,
        p2.x as int,
        p2.y as int,
    );
    assert(orient(ax, ay, cx, cy, bx, by) == -orient(ax, ay, bx, by, cx, cy)) by (nonlinear_arith);
    assert forall|frags: Seq<Fragment>|
        !front_facing(p0, p1, p2) && is_coverage(p0, p1, p2, width, height, frags) implies frags.len()
        == 0 by {
        if frags.len() > 0 {
            let f = frags[0];
            assert(covers(p0, p1, p2, width, height, f.x as int, f.y as int));
        }
    }
}

} // verus!
