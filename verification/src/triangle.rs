//! Click-region geometry: integer points and triangles, with an exact
//! point-in-triangle test used to turn a pointer position into a
//! directional intent.

use vstd::prelude::*;

verus! {

/// A point in surface coordinates.
#[derive(Clone, Copy, PartialEq, Eq, Structural, Debug)]
pub struct Point {
    pub x: i32,
    pub y: i32,
}

impl Point {
    pub fn new(x: i32, y: i32) -> (r: Point)
        ensures
            r.x == x,
            r.y == y,
    {
        Point { x, y }
    }
}

/// A triangle given by its three corners.
#[derive(Clone, Copy, PartialEq, Eq, Structural, Debug)]
pub struct Triangle {
    pub p0: Point,
    pub p1: Point,
    pub p2: Point,
}

/// Twice the signed area of the triangle.
pub open spec fn doubled_area(t: Triangle) -> int {
    -t.p1.y * t.p2.x + t.p0.y * (-t.p1.x + t.p2.x) + t.p0.x * (t.p1.y - t.p2.y) + t.p1.x * t.p2.y
}

/// The triangle's winding: -1 where the signed area is negative, 1
/// otherwise.
pub open spec fn orient(t: Triangle) -> int {
    if doubled_area(t) < 0 {
        -1int
    } else {
        1int
    }
}

/// The first barycentric coordinate of `p`, scaled by twice the area
/// and normalized by the winding.
pub open spec fn s_coord(t: Triangle, p: Point) -> int {
    (t.p0.y * t.p2.x - t.p0.x * t.p2.y + (t.p2.y - t.p0.y) * p.x + (t.p0.x - t.p2.x) * p.y)
        * orient(t)
}

/// The second barycentric coordinate of `p`, scaled and normalized in
/// the same way.
pub open spec fn t_coord(t: Triangle, p: Point) -> int {
    (t.p0.x * t.p1.y - t.p0.y * t.p1.x + (t.p0.y - t.p1.y) * p.x + (t.p1.x - t.p0.x) * p.y)
        * orient(t)
}

/// `p` lies strictly inside `t`: both scaled barycentric coordinates
/// are positive and their sum is below twice the unsigned area.
pub open spec fn contains_spec(t: Triangle, p: Point) -> bool {
    s_coord(t, p) > 0 && t_coord(t, p) > 0 && s_coord(t, p) + t_coord(t, p) < doubled_area(t)
        * orient(t)
}

/// A coordinate small enough that the products below stay exact.
pub open spec fn coord_ok(v: int) -> bool {
    -1_000_000 <= v <= 1_000_000
}

/// All six corner coordinates are in range.
pub open spec fn corners_ok(t: Triangle) -> bool {
    coord_ok(t.p0.x as int) && coord_ok(t.p0.y as int) && coord_ok(t.p1.x as int) && coord_ok(
        t.p1.y as int,
    ) && coord_ok(t.p2.x as int) && coord_ok(t.p2.y as int)
}

/// An exact product of two bounded factors.
fn mul64(a: i64, b: i64) -> (r: i64)
    requires
        -2_000_001 <= a <= 2_000_001,
        -2_000_001 <= b <= 2_000_001,
    ensures
        r == a * b,
        -5_000_000_000_000 <= r <= 5_000_000_000_000,
{
    proof {
        assert(-5_000_000_000_000 <= a * b <= 5_000_000_000_000) by (nonlinear_arith)
            requires
                -2_000_001 <= a <= 2_000_001,
                -2_000_001 <= b <= 2_000_001,
        ;
    }
    a * b
}

impl Triangle {
    pub fn new(p0: Point, p1: Point, p2: Point) -> (r: Triangle)
        ensures
            r.p0 == p0,
            r.p1 == p1,
            r.p2 == p2,
    {
        Triangle { p0, p1, p2 }
    }

    /// Whether `p` lies strictly inside the triangle, decided with
    /// exact integer arithmetic.
    pub fn contains(&self, p: &Point) -> (r: bool)
        requires
            corners_ok(*self),
            coord_ok(p.x as int),
            coord_ok(p.y as int),
        ensures
            r == contains_spec(*self, *p),
    {
        let p0x = self.p0.x as i64;
        let p0y = self.p0.y as i64;
        let p1x = self.p1.x as i64;
        let p1y = self.p1.y as i64;
        let p2x = self.p2.x as i64;
        let p2y = self.p2.y as i64;
        let px = p.x as i64;
        let py = p.y as i64;
        let a2 = mul64(-p1y, p2x) + mul64(p0y, -p1x + p2x) + mul64(p0x, p1y - p2y) + mul64(
            p1x,
            p2y,
        );
        let s_raw = mul64(p0y, p2x) - mul64(p0x, p2y) + mul64(p2y - p0y, px) + mul64(
            p0x - p2x,
            py,
        );
        let t_raw = mul64(p0x, p1y) - mul64(p0y, p1x) + mul64(p0y - p1y, px) + mul64(
            p1x - p0x,
            py,
        );
        let negative = a2 < 0;
        let s = if negative {
            -s_raw
        } else {
            s_raw
        };
        let t = if negative {
            -t_raw
        } else {
            t_raw
        };
        let bound = if negative {
            -a2
        } else {
            a2
        };
        proof {
            assert(a2 == doubled_area(*self));
            if a2 < 0 {
                assert(orient(*self) == -1);
            } else {
                assert(orient(*self) == 1);
            }
            assert(s == s_coord(*self, *p));
            assert(t == t_coord(*self, *p));
            assert(bound == doubled_area(*self) * orient(*self));
        }
        s > 0 && t > 0 && s + t < bound
    }
}

} // verus!
