use vstd::prelude::*;
use crate::boundary::Boundary;
use crate::geometry::Point;

verus! {

/// A half-line that starts at `position` and extends along `direction`.
/// Only the direction of `direction` matters, not its length.
#[derive(Clone, Copy, Debug, PartialEq, Eq, Structural)]
pub struct Ray {
    pub position: Point,
    pub direction: Point,
}

/// An intersection point, held exactly as the rational point
/// `(x / scale, y / scale)`.
#[derive(Clone, Copy, Debug, PartialEq, Eq, Structural)]
pub struct Hit {
    pub x: i64,
    pub y: i64,
    pub scale: i64,
}

impl Hit {
    /// Whether this hit is exactly the point `p`.
    pub fn is_at(&self, p: &Point) -> (r: bool)
        requires
            self.scale > 0,
        ensures
            r == (self.x == p.x * self.scale && self.y == p.y * self.scale),
    {
        assert(-0x8000 * self.scale <= p.x * self.scale <= 0x8000 * self.scale) by (nonlinear_arith)
            requires
                self.scale > 0,
                -0x8000 <= p.x <= 0x8000,
        ;
        assert(-0x8000 * self.scale <= p.y * self.scale <= 0x8000 * self.scale) by (nonlinear_arith)
            requires
                self.scale > 0,
                -0x8000 <= p.y <= 0x8000,
        ;
        let sx = p.x as i128 * self.scale as i128;
        let sy = p.y as i128 * self.scale as i128;
        self.x as i128 == sx && self.y as i128 == sy
    }
}

/// The cross product of the boundary's vector `a - b` with the ray's
/// direction; zero exactly when the two are parallel.
pub open spec fn denominator(r: Ray, w: Boundary) -> int {
    (w.a.x - w.b.x) * r.direction.y - (w.a.y - w.b.y) * r.direction.x
}

/// Numerator of the position of the crossing along the boundary
/// (0 at `a`, 1 at `b`), over `denominator`.
pub open spec fn boundary_numerator(r: Ray, w: Boundary) -> int {
    (w.a.x - r.position.x) * r.direction.y - (w.a.y - r.position.y) * r.direction.x
}

/// Numerator of the position of the crossing along the ray (in units of
/// `direction`, 0 at the ray's origin), over `denominator`.
pub open spec fn ray_numerator(r: Ray, w: Boundary) -> int {
    (w.a.x - w.b.x) * (w.a.y - r.position.y) - (w.a.y - w.b.y) * (w.a.x - r.position.x)
}

/// The positive common denominator of both parameters.
pub open spec fn hit_scale(r: Ray, w: Boundary) -> int {
    if denominator(r, w) > 0 {
        denominator(r, w)
    } else {
        -denominator(r, w)
    }
}

/// The position along the boundary, times `hit_scale`.
pub open spec fn along_boundary(r: Ray, w: Boundary) -> int {
    if denominator(r, w) > 0 {
        boundary_numerator(r, w)
    } else {
        -boundary_numerator(r, w)
    }
}

/// The position along the ray, times `hit_scale`.
pub open spec fn along_ray(r: Ray, w: Boundary) -> int {
    if denominator(r, w) > 0 {
        ray_numerator(r, w)
    } else {
        -ray_numerator(r, w)
    }
}

/// The ray crosses the boundary strictly between its endpoints and strictly
/// ahead of its origin; parallel lines never cross.
pub open spec fn crosses(r: Ray, w: Boundary) -> bool {
    &&& denominator(r, w) != 0
    &&& 0 < along_boundary(r, w) < hit_scale(r, w)
    &&& 0 < along_ray(r, w)
}

/// What `Ray::cast` returns: the point `a + t * (b - a)` where the ray
/// crosses the boundary, if it does.
pub open spec fn cast_spec(r: Ray, w: Boundary) -> Option<Hit> {
    if crosses(r, w) {
        Some(
            Hit {
                x: (w.a.x * hit_scale(r, w) + along_boundary(r, w) * (w.b.x - w.a.x)) as i64,
                y: (w.a.y * hit_scale(r, w) + along_boundary(r, w) * (w.b.y - w.a.y)) as i64,
                scale: hit_scale(r, w) as i64,
            },
        )
    } else {
        None
    }
}

pub(crate) proof fn lemma_mul_bounded(a: int, b: int, ma: int, mb: int) by (nonlinear_arith)
    requires
        -ma <= a <= ma,
        -mb <= b <= mb,
    ensures
        -(ma * mb) <= a * b <= ma * mb,
{
}

/// The squared distance from hit `h` to the point `p`, times `h.scale` squared.
pub open spec fn hit_dist_sq(h: Hit, p: Point) -> int {
    (h.x - p.x * h.scale) * (h.x - p.x * h.scale) + (h.y - p.y * h.scale) * (h.y - p.y * h.scale)
}

/// Hit `g` is strictly nearer to `p` than hit `h` is (both scales positive).
pub open spec fn nearer(g: Hit, h: Hit, p: Point) -> bool {
    hit_dist_sq(g, p) * (h.scale * h.scale) < hit_dist_sq(h, p) * (g.scale * g.scale)
}

proof fn lemma_crossing_identity(fx: int, fy: int, ex: int, ey: int, dx: int, dy: int)
    by (nonlinear_arith)
    ensures
        fx * (ex * dy - ey * dx) - (fx * dy - fy * dx) * ex == (ex * fy - ey * fx) * dx,
        fy * (ex * dy - ey * dx) - (fx * dy - fy * dx) * ey == (ex * fy - ey * fx) * dy,
{
}

/// The coordinates of a crossing fit the fields of `Hit`.
proof fn lemma_hit_fits(r: Ray, w: Boundary)
    requires
        crosses(r, w),
    ensures
        0 < hit_scale(r, w) <= 0x2_0000_0000,
        -0x4_0000_0000_0000 <= w.a.x * hit_scale(r, w) + along_boundary(r, w) * (w.b.x - w.a.x)
            <= 0x4_0000_0000_0000,
        -0x4_0000_0000_0000 <= w.a.y * hit_scale(r, w) + along_boundary(r, w) * (w.b.y - w.a.y)
            <= 0x4_0000_0000_0000,
{
    let s = hit_scale(r, w);
    let t = along_boundary(r, w);
    lemma_mul_bounded(w.a.x - w.b.x, r.direction.y as int, 0x10000, 0x8000);
    lemma_mul_bounded(w.a.y - w.b.y, r.direction.x as int, 0x10000, 0x8000);
    assert(s <= 0x2_0000_0000);
    lemma_mul_bounded(w.a.x as int, s, 0x8000, 0x2_0000_0000);
    lemma_mul_bounded(w.a.y as int, s, 0x8000, 0x2_0000_0000);
    lemma_mul_bounded(t, w.b.x - w.a.x, 0x2_0000_0000, 0x10000);
    lemma_mul_bounded(t, w.b.y - w.a.y, 0x2_0000_0000, 0x10000);
}

/// Where the ray crosses the boundary, the hit lies at `along_ray / scale`
/// steps of `direction` from the ray's origin, and at `along_boundary / scale`
/// of the way from `a` to `b`.
proof fn lemma_hit_offsets(r: Ray, w: Boundary)
    requires
        crosses(r, w),
    ensures
        ({
            let h = cast_spec(r, w)->Some_0;
            &&& h.scale == hit_scale(r, w) > 0
            &&& h.x - r.position.x * h.scale == along_ray(r, w) * r.direction.x
            &&& h.y - r.position.y * h.scale == along_ray(r, w) * r.direction.y
            &&& h.x - w.a.x * h.scale == along_boundary(r, w) * (w.b.x - w.a.x)
            &&& h.y - w.a.y * h.scale == along_boundary(r, w) * (w.b.y - w.a.y)
        }),
{
    let h = cast_spec(r, w)->Some_0;
    let den = denominator(r, w);
    let (tn, un) = (boundary_numerator(r, w), ray_numerator(r, w));
    let (sc, t, u) = (hit_scale(r, w), along_boundary(r, w), along_ray(r, w));
    let (ex, ey) = ((w.a.x - w.b.x) as int, (w.a.y - w.b.y) as int);
    let (fx, fy) = ((w.a.x - r.position.x) as int, (w.a.y - r.position.y) as int);
    let (dx, dy) = (r.direction.x as int, r.direction.y as int);
    lemma_crossing_identity(fx, fy, ex, ey, dx, dy);
    lemma_hit_fits(r, w);
    assert(h.x - r.position.x * h.scale == u * dx) by (nonlinear_arith)
        requires
            (sc == den && t == tn && u == un) || (sc == -den && t == -tn && u == -un),
            h.scale == sc,
            h.x == w.a.x * sc + t * (w.b.x - w.a.x),
            fx == w.a.x - r.position.x,
            ex == w.a.x - w.b.x,
            den == ex * dy - ey * dx,
            tn == fx * dy - fy * dx,
            un == ex * fy - ey * fx,
            fx * (ex * dy - ey * dx) - (fx * dy - fy * dx) * ex == (ex * fy - ey * fx) * dx,
    ;
    assert(h.y - r.position.y * h.scale == u * dy) by (nonlinear_arith)
        requires
            (sc == den && t == tn && u == un) || (sc == -den && t == -tn && u == -un),
            h.scale == sc,
            h.y == w.a.y * sc + t * (w.b.y - w.a.y),
            fy == w.a.y - r.position.y,
            ey == w.a.y - w.b.y,
            den == ex * dy - ey * dx,
            tn == fx * dy - fy * dx,
            un == ex * fy - ey * fx,
            fy * (ex * dy - ey * dx) - (fx * dy - fy * dx) * ey == (ex * fy - ey * fx) * dy,
    ;
}

/// A returned hit lies on the line through the boundary's endpoints, strictly
/// between them (its parameter along `a -> b` is in the open interval (0, 1)),
/// and on the ray, strictly ahead of its origin.
pub proof fn lemma_cast_on_boundary(r: Ray, w: Boundary)
    ensures
        cast_spec(r, w) matches Some(h) ==> {
            let (vx, vy) = (w.b.x - w.a.x, w.b.y - w.a.y);
            let (hx, hy) = (h.x - w.a.x * h.scale, h.y - w.a.y * h.scale);
            let (ox, oy) = (h.x - r.position.x * h.scale, h.y - r.position.y * h.scale);
            &&& h.scale > 0
            &&& hx * vy == hy * vx
            &&& 0 < hx * vx + hy * vy < h.scale * (vx * vx + vy * vy)
            &&& ox * r.direction.y == oy * r.direction.x
            &&& 0 < ox * r.direction.x + oy * r.direction.y
        },
{
    if crosses(r, w) {
        lemma_hit_offsets(r, w);
        let h = cast_spec(r, w)->Some_0;
        let (vx, vy) = ((w.b.x - w.a.x) as int, (w.b.y - w.a.y) as int);
        let (dx, dy) = (r.direction.x as int, r.direction.y as int);
        let t = along_boundary(r, w);
        let u = along_ray(r, w);
        let s = h.scale as int;
        assert((vx != 0 || vy != 0) && (dx != 0 || dy != 0)) by (nonlinear_arith)
            requires
                (w.a.x - w.b.x) * dy - (w.a.y - w.b.y) * dx != 0,
                vx == w.b.x - w.a.x,
                vy == w.b.y - w.a.y,
        ;
        assert((t * vx) * vy == (t * vy) * vx) by (nonlinear_arith);
        assert(0 < (t * vx) * vx + (t * vy) * vy < s * (vx * vx + vy * vy)) by (nonlinear_arith)
            requires
                0 < t < s,
                vx != 0 || vy != 0,
        ;
        assert((u * dx) * dy == (u * dy) * dx) by (nonlinear_arith);
        assert(0 < (u * dx) * dx + (u * dy) * dy) by (nonlinear_arith)
            requires
                0 < u,
                dx != 0 || dy != 0,
        ;
    }
}

/// For two boundaries crossed by the same ray, the nearer hit to the ray's
/// origin is the one with the smaller position along the ray.
pub(crate) proof fn lemma_nearer_iff_along(r: Ray, w1: Boundary, w2: Boundary)
    requires
        crosses(r, w1),
        crosses(r, w2),
    ensures
        ({
            let (h1, h2) = (cast_spec(r, w1)->Some_0, cast_spec(r, w2)->Some_0);
            nearer(h1, h2, r.position) <==> along_ray(r, w1) * h2.scale < along_ray(r, w2)
                * h1.scale
        }),
{
    lemma_hit_offsets(r, w1);
    lemma_hit_offsets(r, w2);
    lemma_cast_on_boundary(r, w1);
    let h1 = cast_spec(r, w1)->Some_0;
    let h2 = cast_spec(r, w2)->Some_0;
    let p = r.position;
    let (dx, dy) = (r.direction.x as int, r.direction.y as int);
    let (u1, u2) = (along_ray(r, w1), along_ray(r, w2));
    let (s1, s2) = (h1.scale as int, h2.scale as int);
    assert(dx != 0 || dy != 0) by (nonlinear_arith)
        requires
            0 < (h1.x - p.x * s1) * dx + (h1.y - p.y * s1) * dy,
    ;
    let len = dx * dx + dy * dy;
    assert(len > 0) by (nonlinear_arith)
        requires
            dx != 0 || dy != 0,
            len == dx * dx + dy * dy,
    ;
    assert((h1.x - p.x * s1) * (h1.x - p.x * s1) + (h1.y - p.y * s1) * (h1.y - p.y * s1) == u1
        * u1 * len) by (nonlinear_arith)
        requires
            h1.x - p.x * s1 == u1 * dx,
            h1.y - p.y * s1 == u1 * dy,
            len == dx * dx + dy * dy,
    ;
    assert((h2.x - p.x * s2) * (h2.x - p.x * s2) + (h2.y - p.y * s2) * (h2.y - p.y * s2) == u2
        * u2 * len) by (nonlinear_arith)
        requires
            h2.x - p.x * s2 == u2 * dx,
            h2.y - p.y * s2 == u2 * dy,
            len == dx * dx + dy * dy,
    ;
    assert((u1 * u1 * len) * (s2 * s2) < (u2 * u2 * len) * (s1 * s1) <==> u1 * s2 < u2 * s1)
        by (nonlinear_arith)
        requires
            len > 0,
            u1 > 0,
            u2 > 0,
            s1 > 0,
            s2 > 0,
    ;
}

impl Ray {
    pub fn new(position: Point, direction: Point) -> (r: Ray)
        ensures
            r.position == position,
            r.direction == direction,
    {
        Ray { position, direction }
    }

    /// The crossing with `wall` together with its position along the ray,
    /// over the hit's scale.
    pub(crate) fn intersect(&self, wall: &Boundary) -> (r: Option<(Hit, i64)>)
        ensures
            r is None <==> cast_spec(*self, *wall) is None,
            r matches Some((h, u)) ==> cast_spec(*self, *wall) == Some(h) && u == along_ray(
                *self,
                *wall,
            ),
    {
        let ax = wall.a.x as i64;
        let ay = wall.a.y as i64;
        let bx = wall.b.x as i64;
        let by = wall.b.y as i64;
        let px = self.position.x as i64;
        let py = self.position.y as i64;
        let dx = self.direction.x as i64;
        let dy = self.direction.y as i64;
        let ex = ax - bx;
        let ey = ay - by;
        let fx = ax - px;
        let fy = ay - py;
        proof {
            lemma_mul_bounded(ex as int, dy as int, 0x10000, 0x8000);
            lemma_mul_bounded(ey as int, dx as int, 0x10000, 0x8000);
            lemma_mul_bounded(fx as int, dy as int, 0x10000, 0x8000);
            lemma_mul_bounded(fy as int, dx as int, 0x10000, 0x8000);
            lemma_mul_bounded(ex as int, fy as int, 0x10000, 0x10000);
            lemma_mul_bounded(ey as int, fx as int, 0x10000, 0x10000);
        }
        let den = ex * dy - ey * dx;
        if den == 0 {
            return None;
        }
        let tn0 = fx * dy - fy * dx;
        let un0 = ex * fy - ey * fx;
        let scale: i64;
        let tn: i64;
        let un: i64;
        if den > 0 {
            scale = den;
            tn = tn0;
            un = un0;
        } else {
            scale = -den;
            tn = -tn0;
            un = -un0;
        }
        assert(scale == hit_scale(*self, *wall));
        assert(tn == along_boundary(*self, *wall));
        assert(un == along_ray(*self, *wall));
        if 0 < tn && tn < scale && 0 < un {
            proof {
                lemma_mul_bounded(ax as int, scale as int, 0x8000, 0x1_0000_0000);
                lemma_mul_bounded(ay as int, scale as int, 0x8000, 0x1_0000_0000);
                lemma_mul_bounded(tn as int, (bx - ax) as int, 0x1_0000_0000, 0x10000);
                lemma_mul_bounded(tn as int, (by - ay) as int, 0x1_0000_0000, 0x10000);
            }
            let h = Hit { x: ax * scale + tn * (bx - ax), y: ay * scale + tn * (by - ay), scale };
            Some((h, un))
        } else {
            None
        }
    }

    /// Where this ray first meets `wall`: the point strictly inside the
    /// segment and strictly ahead of the ray's origin, or `None` when there is
    /// no such point (parallel lines included).
    pub fn cast(&self, wall: &Boundary) -> (r: Option<Hit>)
        ensures
            r == cast_spec(*self, *wall),
            denominator(*self, *wall) == 0 ==> r is None,
    {
        match self.intersect(wall) {
            Some((h, _)) => Some(h),
            None => None,
        }
    }
}

} // verus!
