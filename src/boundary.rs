use vstd::prelude::*;
use crate::geometry::Point;

verus! {

/// A line-segment obstacle from `a` to `b`. The order of the endpoints is kept:
/// intersection parameters are measured from `a` towards `b`.
#[derive(Clone, Copy, Debug, PartialEq, Eq, Structural)]
pub struct Boundary {
    pub a: Point,
    pub b: Point,
}

impl Boundary {
    pub fn new(a: Point, b: Point) -> (r: Boundary)
        ensures
            r.a == a,
            r.b == b,
    {
        Boundary { a, b }
    }
}

} // verus!
