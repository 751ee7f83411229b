use vstd::prelude::*;

verus! {

/// A point (or a vector) with integer coordinates.
#[derive(Clone, Copy, Debug, PartialEq, Eq, Structural)]
pub struct Point {
    pub x: i16,
    pub y: i16,
}

impl Point {
    pub fn new(x: i16, y: i16) -> (r: Point)
        ensures
            r.x == x,
            r.y == y,
    {
        Point { x, y }
    }
}

/// The square of the Euclidean distance between `a` and `b`.
pub open spec fn dist_sq(a: Point, b: Point) -> int {
    (a.x - b.x) * (a.x - b.x) + (a.y - b.y) * (a.y - b.y)
}

/// The square of the Euclidean distance between two points, computed exactly.
pub fn distance_squared(a: &Point, b: &Point) -> (r: u64)
    ensures
        r == dist_sq(*a, *b),
{
    let dx: i64 = a.x as i64 - b.x as i64;
    let dy: i64 = a.y as i64 - b.y as i64;
    assert(0 <= dx * dx <= 0x1_0000_0000) by (nonlinear_arith)
        requires
            -0x10000 <= dx <= 0x10000,
    ;
    assert(0 <= dy * dy <= 0x1_0000_0000) by (nonlinear_arith)
        requires
            -0x10000 <= dy <= 0x10000,
    ;
    (dx * dx + dy * dy) as u64
}

/// Distance is symmetric, never negative, and zero exactly between a point
/// and itself.
pub proof fn lemma_distance_symmetric(a: Point, b: Point)
    ensures
        dist_sq(a, b) == dist_sq(b, a),
        dist_sq(a, a) == 0,
        dist_sq(a, b) >= 0,
        dist_sq(a, b) == 0 <==> a == b,
{
    assert((a.x - b.x) * (a.x - b.x) == (b.x - a.x) * (b.x - a.x)) by (nonlinear_arith);
    assert((a.y - b.y) * (a.y - b.y) == (b.y - a.y) * (b.y - a.y)) by (nonlinear_arith);
    assert((a.x - b.x) * (a.x - b.x) >= 0) by (nonlinear_arith);
    assert((a.y - b.y) * (a.y - b.y) >= 0) by (nonlinear_arith);
    assert((a.x - b.x) * (a.x - b.x) == 0 ==> a.x == b.x) by (nonlinear_arith);
    assert((a.y - b.y) * (a.y - b.y) == 0 ==> a.y == b.y) by (nonlinear_arith);
}

} // verus!
