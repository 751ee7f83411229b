use vstd::prelude::*;
use crate::boundary::Boundary;
use crate::geometry::Point;
use crate::ray::{
    along_ray, cast_spec, hit_dist_sq, lemma_cast_on_boundary, lemma_mul_bounded,
    lemma_nearer_iff_along, nearer, Hit, Ray,
};

verus! {

/// How many rays a light source casts: one every tenth of a degree.
pub const RAY_COUNT: usize = 3600;

/// `res` is what the nearest-hit scan of `r` over `walls` yields, measured
/// from `from`: `None` when the ray meets no wall; otherwise the hit of the
/// first wall whose hit is nearest to `from`.
pub open spec fn is_nearest(from: Point, r: Ray, walls: Seq<Boundary>, res: Option<Hit>) -> bool {
    match res {
        None => forall|k: int| 0 <= k < walls.len() ==> #[trigger] cast_spec(r, walls[k]) is None,
        Some(h) => exists|j: int|
            {
                &&& 0 <= j < walls.len()
                &&& cast_spec(r, walls[j]) == Some(h)
                &&& forall|k: int|
                    0 <= k < walls.len() && #[trigger] cast_spec(r, walls[k]) is Some ==> !nearer(
                        cast_spec(r, walls[k])->Some_0,
                        h,
                        from,
                    )
                &&& forall|k: int|
                    0 <= k < j && #[trigger] cast_spec(r, walls[k]) is Some ==> nearer(
                        h,
                        cast_spec(r, walls[k])->Some_0,
                        from,
                    )
            },
    }
}

/// `res` holds, ray by ray, the nearest hit of each of `rays` among `walls`,
/// measured from `from`.
pub open spec fn nearest_hits(
    from: Point,
    rays: Seq<Ray>,
    walls: Seq<Boundary>,
    res: Seq<Option<Hit>>,
) -> bool {
    &&& res.len() == rays.len()
    &&& forall|i: int| 0 <= i < rays.len() ==> is_nearest(from, rays[i], walls, #[trigger] res[i])
}

/// A light source: a position and the rays it casts from there.
#[derive(Debug)]
pub struct Particle {
    pub position: Point,
    pub rays: Vec<Ray>,
}

/// The angles at which a light source casts its rays, in tenths of a degree:
/// from 0 up to, but not including, 360 degrees.
pub fn sample_angles() -> (r: Vec<u16>)
    ensures
        r@.len() == RAY_COUNT,
        forall|i: int| 0 <= i < RAY_COUNT ==> #[trigger] r@[i] == i,
{
    let mut r: Vec<u16> = Vec::new();
    let mut i: u16 = 0;
    while (i as usize) < RAY_COUNT
        invariant
            i <= RAY_COUNT,
            r@.len() == i,
            forall|k: int| 0 <= k < i ==> #[trigger] r@[k] == k,
        decreases RAY_COUNT - i,
    {
        r.push(i);
        i = i + 1;
    }
    r
}

/// The order "strictly less" on fractions `n / d` with positive `d` is
/// transitive, also when one of the two steps is not strict.
proof fn lemma_fraction_order(a: int, b: int, c: int, d: int, e: int, f: int)
    by (nonlinear_arith)
    requires
        b > 0,
        d > 0,
        f > 0,
        a * d <= c * b,
        c * f <= e * d,
        a * d < c * b || c * f < e * d,
    ensures
        a * f < e * b,
{
    assert(a * d * f <= c * b * f);
    assert(c * f * b <= e * d * b);
    assert(a * d * f < c * b * f || c * f * b < e * d * b);
    assert(a * f * d < e * b * d);
}

/// If `x` is nearer than `y`, and `z` is not nearer than `y`, then `x` is
/// nearer than `z`.
proof fn lemma_nearer_through(x: Hit, y: Hit, z: Hit, p: Point)
    requires
        x.scale > 0,
        y.scale > 0,
        z.scale > 0,
        nearer(x, y, p),
        !nearer(z, y, p),
    ensures
        nearer(x, z, p),
{
    let (sx, sy, sz) = (x.scale * x.scale, y.scale * y.scale, z.scale * z.scale);
    assert(sx > 0 && sy > 0 && sz > 0) by (nonlinear_arith)
        requires
            x.scale > 0,
            y.scale > 0,
            z.scale > 0,
            sx == x.scale * x.scale,
            sy == y.scale * y.scale,
            sz == z.scale * z.scale,
    ;
    lemma_fraction_order(hit_dist_sq(x, p), sx, hit_dist_sq(y, p), sy, hit_dist_sq(z, p), sz);
}

/// The nearest hit of `ray` among `walls`, measured from the ray's origin.
fn nearest_hit(ray: &Ray, walls: &Vec<Boundary>) -> (r: Option<Hit>)
    ensures
        is_nearest(ray.position, *ray, walls@, r),
{
    let mut best: Option<(Hit, i64)> = None;
    let ghost mut bj: int = 0;
    let mut k: usize = 0;
    while k < walls.len()
        invariant
            k <= walls@.len(),
            best is None ==> forall|m: int| 0 <= m < k ==> #[trigger] cast_spec(*ray, walls@[m]) is None,
            best matches Some((h, u)) ==> {
                &&& 0 <= bj < k
                &&& cast_spec(*ray, walls@[bj]) == Some(h)
                &&& u == along_ray(*ray, walls@[bj])
                &&& forall|m: int|
                    0 <= m < k && #[trigger] cast_spec(*ray, walls@[m]) is Some ==> !nearer(
                        cast_spec(*ray, walls@[m])->Some_0,
                        h,
                        ray.position,
                    )
                &&& forall|m: int|
                    0 <= m < bj && #[trigger] cast_spec(*ray, walls@[m]) is Some ==> nearer(
                        h,
                        cast_spec(*ray, walls@[m])->Some_0,
                        ray.position,
                    )
            },
        decreases walls@.len() - k,
    {
        let wall = &walls[k];
        match ray.intersect(wall) {
            Some((h, u)) => {
                match best {
                    None => {
                        best = Some((h, u));
                        proof {
                            bj = k as int;
                        }
                    },
                    Some((bh, bu)) => {
                        proof {
                            lemma_nearer_iff_along(*ray, *wall, walls@[bj]);
                            lemma_mul_bounded(u as int, bh.scale as int, 0x8000_0000_0000_0000, 0x8000_0000_0000_0000);
                            lemma_mul_bounded(bu as int, h.scale as int, 0x8000_0000_0000_0000, 0x8000_0000_0000_0000);
                            lemma_cast_on_boundary(*ray, *wall);
                            lemma_cast_on_boundary(*ray, walls@[bj]);
                        }
                        if (u as i128) * (bh.scale as i128) < (bu as i128) * (h.scale as i128) {
                            proof {
                                assert forall|m: int|
                                    0 <= m < k + 1 && #[trigger] cast_spec(*ray, walls@[m]) is Some
                                        implies !nearer(
                                    cast_spec(*ray, walls@[m])->Some_0,
                                    h,
                                    ray.position,
                                ) && (m < k ==> nearer(
                                    h,
                                    cast_spec(*ray, walls@[m])->Some_0,
                                    ray.position,
                                )) by {
                                    if m < k {
                                        let g = cast_spec(*ray, walls@[m])->Some_0;
                                        lemma_cast_on_boundary(*ray, walls@[m]);
                                        lemma_nearer_through(h, bh, g, ray.position);
                                    }
                                }
                                bj = k as int;
                            }
                            best = Some((h, u));
                        }
                    },
                }
            },
            None => {},
        }
        k = k + 1;
    }
    match best {
        Some((h, _)) => Some(h),
        None => None,
    }
}

/// The nearest hit is well defined: two results that both qualify as the
/// nearest hit of a ray among the same walls are equal.
pub proof fn lemma_nearest_unique(
    from: Point,
    r: Ray,
    walls: Seq<Boundary>,
    a: Option<Hit>,
    b: Option<Hit>,
)
    requires
        is_nearest(from, r, walls, a),
        is_nearest(from, r, walls, b),
    ensures
        a == b,
{
    match (a, b) {
        (Some(ha), Some(hb)) => {
            let ja = choose|j: int|
                {
                    &&& 0 <= j < walls.len()
                    &&& cast_spec(r, walls[j]) == Some(ha)
                    &&& forall|k: int|
                        0 <= k < walls.len() && #[trigger] cast_spec(r, walls[k]) is Some
                            ==> !nearer(cast_spec(r, walls[k])->Some_0, ha, from)
                    &&& forall|k: int|
                        0 <= k < j && #[trigger] cast_spec(r, walls[k]) is Some ==> nearer(
                            ha,
                            cast_spec(r, walls[k])->Some_0,
                            from,
                        )
                };
            let jb = choose|j: int|
                {
                    &&& 0 <= j < walls.len()
                    &&& cast_spec(r, walls[j]) == Some(hb)
                    &&& forall|k: int|
                        0 <= k < walls.len() && #[trigger] cast_spec(r, walls[k]) is Some
                            ==> !nearer(cast_spec(r, walls[k])->Some_0, hb, from)
                    &&& forall|k: int|
                        0 <= k < j && #[trigger] cast_spec(r, walls[k]) is Some ==> nearer(
                            hb,
                            cast_spec(r, walls[k])->Some_0,
                            from,
                        )
                };
            assert(cast_spec(r, walls[ja]) is Some);
            assert(cast_spec(r, walls[jb]) is Some);
        },
        (Some(ha), None) => {
            let ja = choose|j: int| 0 <= j < walls.len() && cast_spec(r, walls[j]) == Some(ha);
            assert(cast_spec(r, walls[ja]) is None);
        },
        (None, Some(hb)) => {
            let jb = choose|j: int| 0 <= j < walls.len() && cast_spec(r, walls[j]) == Some(hb);
            assert(cast_spec(r, walls[jb]) is None);
        },
        (None, None) => {},
    }
}

/// Casting is repeatable: with the same position, rays and walls, any two
/// results of the nearest-hit scan are identical.
pub proof fn lemma_cast_repeatable(
    from: Point,
    rays: Seq<Ray>,
    walls: Seq<Boundary>,
    first: Seq<Option<Hit>>,
    second: Seq<Option<Hit>>,
)
    requires
        nearest_hits(from, rays, walls, first),
        nearest_hits(from, rays, walls, second),
    ensures
        first == second,
{
    assert forall|i: int| 0 <= i < rays.len() implies first[i] == second[i] by {
        lemma_nearest_unique(from, rays[i], walls, first[i], second[i]);
    }
    assert(first =~= second);
}

impl Particle {
    /// Every ray starts at the light's position.
    pub open spec fn wf(&self) -> bool {
        forall|i: int| 0 <= i < self.rays@.len() ==> (#[trigger] self.rays@[i]).position == self.position
    }

    /// A light at `position`, with no rays yet.
    pub fn new(position: Point) -> (r: Particle)
        ensures
            r.position == position,
            r.rays@.len() == 0,
            r.wf(),
    {
        Particle { position, rays: Vec::new() }
    }

    /// Replaces the rays with one ray from the light's position along each of
    /// `directions`, in order.
    pub fn set_rays(&mut self, directions: &Vec<Point>)
        ensures
            final(self).position == old(self).position,
            final(self).rays@.len() == directions@.len(),
            forall|i: int|
                0 <= i < directions@.len() ==> #[trigger] final(self).rays@[i] == (Ray { position: old(self).position, direction: directions@[i] }),
            final(self).wf(),
    {
        let mut rays: Vec<Ray> = Vec::new();
        let mut i: usize = 0;
        while i < directions.len()
            invariant
                i <= directions@.len(),
                rays@.len() == i,
                forall|k: int|
                    0 <= k < i ==> #[trigger] rays@[k] == (Ray { position: self.position, direction: directions@[k] }),
            decreases directions@.len() - i,
        {
            rays.push(Ray::new(self.position, directions[i]));
            i = i + 1;
        }
        self.rays = rays;
    }

    /// For each ray, in order, the hit nearest to the light's position among
    /// `walls`, or `None` where the ray meets no wall.
    pub fn cast(&self, walls: &Vec<Boundary>) -> (r: Vec<Option<Hit>>)
        requires
            self.wf(),
        ensures
            nearest_hits(self.position, self.rays@, walls@, r@),
    {
        let mut r: Vec<Option<Hit>> = Vec::new();
        let mut i: usize = 0;
        while i < self.rays.len()
            invariant
                self.wf(),
                i <= self.rays@.len(),
                r@.len() == i,
                forall|k: int|
                    0 <= k < i ==> is_nearest(self.position, self.rays@[k], walls@, #[trigger] r@[k]),
            decreases self.rays@.len() - i,
        {
            let hit = nearest_hit(&self.rays[i], walls);
            r.push(hit);
            i = i + 1;
        }
        r
    }

    /// Casts a fresh set of rays, one along each of `directions`, and returns
    /// the nearest hit of each among `walls`.
    pub fn update(&mut self, directions: &Vec<Point>, walls: &Vec<Boundary>) -> (r: Vec<Option<Hit>>)
        ensures
            final(self).position == old(self).position,
            final(self).rays@.len() == directions@.len(),
            forall|i: int|
                0 <= i < directions@.len() ==> #[trigger] final(self).rays@[i] == (Ray { position: old(self).position, direction: directions@[i] }),
            final(self).wf(),
            nearest_hits(old(self).position, final(self).rays@, walls@, r@),
    {
        self.set_rays(directions);
        self.cast(walls)
    }
}

} // verus!
