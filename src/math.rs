use vstd::prelude::*;

verus! {

/// A point on the integer pixel grid.
#[derive(Clone, Copy, Debug, PartialEq, Eq, Structural)]
pub struct Point2 {
    pub x: i32,
    pub y: i32,
}

pub open spec fn min_int(a: int, b: int) -> int {
    if a <= b {
        a
    } else {
        b
    }
}

pub open spec fn max_int(a: int, b: int) -> int {
    if a >= b {
        a
    } else {
        b
    }
}

/// The least of three values.
pub fn min3(a: i32, b: i32, c: i32) -> (r: i32)
    ensures
        r as int == min_int(a as int, min_int(b as int, c as int)),
        r <= a && r <= b && r <= c,
        r == a || r == b || r == c,
{
    let bc = if b <= c {
        b
    } else {
        c
    };
    if a <= bc {
        a
    } else {
        bc
    }
}

/// The greatest of three values.
pub fn max3(a: i32, b: i32, c: i32) -> (r: i32)
    ensures
        r as int == max_int(a as int, max_int(b as int, c as int)),
        r >= a && r >= b && r >= c,
        r == a || r == b || r == c,
{
    let bc = if b >= c {
        b
    } else {
        c
    };
    if a >= bc {
        a
    } else {
        bc
    }
}

/// Twice the signed area of the triangle `(a, b, (x, y))`: positive when the
/// three points turn one way, negative the other way, zero when collinear.
pub open spec fn orient(ax: int, ay: int, bx: int, by: int, x: int, y: int) -> int {
    (bx - ax) * (y - ay) - (by - ay) * (x - ax)
}

/// The edge function of the edge `a -> b` at the pixel `(x, y)`.
pub fn orient2d(a: Point2, b: Point2, x: i32, y: i32) -> (r: i64)
    requires
        i64::MIN <= orient(a.x as int, a.y as int, b.x as int, b.y as int, x as int, y as int)
            <= i64::MAX,
    ensures
        r as int == orient(a.x as int, a.y as int, b.x as int, b.y as int, x as int, y as int),
{
    let dx1 = b.x as i128 - a.x as i128;
    let dy1 = y as i128 - a.y as i128;
    let dy2 = b.y as i128 - a.y as i128;
    let dx2 = x as i128 - a.x as i128;
    assert(-0x1_0000_0000 * 0x1_0000_0000 <= dx1 * dy1 <= 0x1_0000_0000 * 0x1_0000_0000)
        by (nonlinear_arith)
        requires
            -0x1_0000_0000 <= dx1 <= 0x1_0000_0000,
            -0x1_0000_0000 <= dy1 <= 0x1_0000_0000,
    ;
    assert(-0x1_0000_0000 * 0x1_0000_0000 <= dy2 * dx2 <= 0x1_0000_0000 * 0x1_0000_0000)
        by (nonlinear_arith)
        requires
            -0x1_0000_0000 <= dy2 <= 0x1_0000_0000,
            -0x1_0000_0000 <= dx2 <= 0x1_0000_0000,
    ;
    (dx1 * dy1 - dy2 * dx2) as i64
}

} // verus!
