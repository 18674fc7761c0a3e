use vstd::prelude::*;

use crate::math::Point2;

verus! {

pub open spec fn abs_int(v: int) -> int {
    if v < 0 {
        -v
    } else {
        v
    }
}

/// Whether a line moves more along y than along x; such a line is walked
/// along y.
pub open spec fn is_steep(p0: Point2, p1: Point2) -> bool {
    abs_int(p0.x - p1.x) < abs_int(p0.y - p1.y)
}

/// The endpoints `(a0, b0, a1, b1)` of the walk: coordinates swapped for a
/// steep line, so that `a` is the major axis, and ordered so that `a0 <= a1`.
pub open spec fn walk_ends(p0: Point2, p1: Point2) -> (int, int, int, int) {
    let (a0, b0, a1, b1) = if is_steep(p0, p1) {
        (p0.y as int, p0.x as int, p1.y as int, p1.x as int)
    } else {
        (p0.x as int, p0.y as int, p1.x as int, p1.y as int)
    };
    if a0 > a1 {
        (a1, b1, a0, b0)
    } else {
        (a0, b0, a1, b1)
    }
}

/// How far the minor coordinate has moved after `k` steps along the major
/// axis: `k * ady / dx` rounded to nearest, halves rounded down.
pub open spec fn minor_offset(k: int, dx: int, ady: int) -> int {
    (2 * k * ady + dx - 1) / (2 * dx)
}

/// The `k`-th point that the walk from `p0` to `p1` plots.
pub open spec fn line_point(p0: Point2, p1: Point2, k: int) -> (int, int) {
    let (a0, b0, a1, b1) = walk_ends(p0, p1);
    let dx = a1 - a0;
    let dy = b1 - b0;
    let b = if dy > 0 {
        b0 + minor_offset(k, dx, dy)
    } else {
        b0 - minor_offset(k, dx, -dy)
    };
    if is_steep(p0, p1) {
        (b, a0 + k)
    } else {
        (a0 + k, b)
    }
}

/// How many points the walk plots: one per step along the major axis, the
/// last endpoint left out.
pub open spec fn line_len(p0: Point2, p1: Point2) -> int {
    let (a0, b0, a1, b1) = walk_ends(p0, p1);
    a1 - a0
}

proof fn lemma_minor_offset(k: int, dx: int, ady: int, n: int)
    requires
        dx > 0,
        k >= 0,
        2 * dx * n <= 2 * k * ady + dx - 1,
        2 * k * ady + dx - 1 < 2 * dx * n + 2 * dx,
    ensures
        n == minor_offset(k, dx, ady),
{
    let num = 2 * k * ady + dx - 1;
    let d = 2 * dx;
    let q = num / d;
    let r = num % d;
    vstd::arithmetic::div_mod::lemma_fundamental_div_mod(num, d);
    assert(num == d * q + r);
    assert(0 <= r < d);
    assert(n == q) by (nonlinear_arith)
        requires
            d > 0,
            num == d * q + r,
            0 <= r < d,
            d * n <= num,
            num < d * n + d,
    ;
}

/// The pixels of the line from `p0` to `p1`, as a Bresenham walk along the
/// major axis plots them; the last endpoint is not among them.
pub fn line_points(p0: Point2, p1: Point2) -> (r: Vec<Point2>)
    ensures
        r@.len() == line_len(p0, p1),
        forall|k: int|
            0 <= k < r@.len() ==> (#[trigger] r@[k].x as int, r@[k].y as int) == line_point(p0, p1, k),
{
    let mut x0 = p0.x as i64;
    let mut y0 = p0.y as i64;
    let mut x1 = p1.x as i64;
    let mut y1 = p1.y as i64;
    let ax = if x0 > x1 { x0 - x1 } else { x1 - x0 };
    let ay = if y0 > y1 { y0 - y1 } else { y1 - y0 };
    let steep = ax < ay;
    if steep {
        let t = x0;
        x0 = y0;
        y0 = t;
        let t = x1;
        x1 = y1;
        y1 = t;
    }
    if x0 > x1 {
        let t = x0;
        x0 = x1;
        x1 = t;
        let t = y0;
        y0 = y1;
        y1 = t;
    }
    assert((x0 as int, y0 as int, x1 as int, y1 as int) == walk_ends(p0, p1));
    let dx = x1 - x0;
    let dy = y1 - y0;
    let ady = if dy < 0 { -dy } else { dy };
    let d_error = 2 * ady;
    let mut error: i64 = 0;
    let mut y = y0;
    let mut x = x0;
    let ghost mut n: int = 0;
    assert(2 * (x - x0) * ady - 2 * dx * n == 0) by (nonlinear_arith)
        requires
            x == x0,
            n == 0,
    ;
    let mut out: Vec<Point2> = Vec::new();
    while x < x1
        invariant
            (x0 as int, y0 as int, x1 as int, y1 as int) == walk_ends(p0, p1),
            steep == is_steep(p0, p1),
            dx == x1 - x0,
            dy == y1 - y0,
            ady == abs_int(dy as int),
            ady <= dx,
            d_error == 2 * ady,
            x0 <= x <= x1,
            out@.len() == x - x0,
            n >= 0,
            error == 2 * (x - x0) * ady - 2 * dx * n,
            -dx < error || dx == 0,
            error <= dx,
            y == if dy > 0 {
                y0 + n
            } else {
                y0 - n
            },
            -0x1_0000_0000 <= y0 <= 0x1_0000_0000,
            n <= x - x0,
            forall|k: int|
                0 <= k < out@.len() ==> (#[trigger] out@[k].x as int, out@[k].y as int) == line_point(
                    p0,
                    p1,
                    k,
                ),
        decreases x1 - x,
    {
        let k = x - x0;
        let ghost n0 = n;
        proof {
            lemma_minor_offset(k as int, dx as int, ady as int, n);
            if dy > 0 {
                assert(ady == dy);
            } else {
                assert(ady == -dy);
            }
        }
        assert(n <= ady) by (nonlinear_arith)
            requires
                2 * dx * n <= 2 * k * ady + dx - 1,
                0 <= k < dx,
                0 <= ady <= dx,
        ;
        let pt = if steep {
            Point2 { x: y as i32, y: x as i32 }
        } else {
            Point2 { x: x as i32, y: y as i32 }
        };
        out.push(pt);
        error = error + d_error;
        if error > dx {
            y = if y1 > y0 { y + 1 } else { y - 1 };
            error = error - 2 * dx;
            proof {
                n = n + 1;
            }
        }
        assert(2 * (k + 1) * ady == 2 * k * ady + 2 * ady) by (nonlinear_arith);
        assert(2 * dx * (n0 + 1) == 2 * dx * n0 + 2 * dx) by (nonlinear_arith);
        x = x + 1;
    }
    out
}

/// Whether the walk from `p0` to `p1` plots the pixel `(x, y)`.
pub open spec fn on_line(p0: Point2, p1: Point2, x: int, y: int) -> bool {
    exists|k: int| 0 <= k < line_len(p0, p1) && #[trigger] line_point(p0, p1, k) == (x, y)
}

/// Whether one of `pts` is the pixel `(x, y)`.
pub open spec fn among(pts: Seq<Point2>, x: int, y: int) -> bool {
    exists|k: int| 0 <= k < pts.len() && (#[trigger] pts[k].x as int, pts[k].y as int) == (x, y)
}

pub proof fn lemma_line_points_among(p0: Point2, p1: Point2, pts: Seq<Point2>, x: int, y: int)
    requires
        pts.len() == line_len(p0, p1),
        forall|k: int|
            0 <= k < pts.len() ==> (#[trigger] pts[k].x as int, pts[k].y as int) == line_point(
                p0,
                p1,
                k,
            ),
    ensures
        among(pts, x, y) == on_line(p0, p1, x, y),
{
    if among(pts, x, y) {
        let k = choose|k: int| 0 <= k < pts.len() && (#[trigger] pts[k].x as int, pts[k].y as int) == (x, y);
        assert(line_point(p0, p1, k) == (x, y));
    }
    if on_line(p0, p1, x, y) {
        let k = choose|k: int| 0 <= k < line_len(p0, p1) && #[trigger] line_point(p0, p1, k) == (x, y);
        assert((pts[k].x as int, pts[k].y as int) == (x, y));
    }
}

} // verus!
