use vstd::prelude::*;
use rand::Rng;
use crate::boundary::Boundary;
use crate::geometry::Point;
use crate::particle::{nearest_hits, Particle};
use crate::ray::{Hit, Ray};

verus! {

/// How many obstacles are placed at random on each regeneration.
pub const RANDOM_WALLS: usize = 5;

/// Relies on rand's `thread_rng` and `Rng::gen_range` over an inclusive range:
/// the value drawn lies within the bounds. `gen_range` panics on an empty
/// range, which `requires` rules out.
#[verifier::external_body]
fn random_between(low: i16, high: i16) -> (r: i16)
    requires
        low <= high,
    ensures
        low <= r <= high,
{
    rand::thread_rng().gen_range(low..=high)
}

/// The four edges of the viewport `[0, width] x [0, height]`: left, top,
/// bottom, right.
pub open spec fn border_walls(width: i16, height: i16) -> Seq<Boundary> {
    seq![
        Boundary { a: Point { x: 0, y: 0 }, b: Point { x: 0, y: height } },
        Boundary { a: Point { x: 0, y: 0 }, b: Point { x: width, y: 0 } },
        Boundary { a: Point { x: 0, y: height }, b: Point { x: width, y: height } },
        Boundary { a: Point { x: width, y: 0 }, b: Point { x: width, y: height } },
    ]
}

/// `p` lies in the viewport `[0, width] x [0, height]`, edges included.
pub open spec fn in_viewport(p: Point, width: i16, height: i16) -> bool {
    0 <= p.x <= width && 0 <= p.y <= height
}

/// The obstacles of a freshly regenerated viewport of the given size: the four
/// borders, then `RANDOM_WALLS` segments with both endpoints in the viewport.
pub open spec fn regenerated(walls: Seq<Boundary>, width: i16, height: i16) -> bool {
    &&& walls.len() == 4 + RANDOM_WALLS
    &&& walls.subrange(0, 4) == border_walls(width, height)
    &&& forall|i: int|
        4 <= i < walls.len() ==> in_viewport(#[trigger] walls[i].a, width, height) && in_viewport(
            walls[i].b,
            width,
            height,
        )
}

/// The obstacles of the simulation; each frame a light is placed among them.
#[derive(Debug)]
pub struct Scene {
    pub walls: Vec<Boundary>,
}

impl Scene {
    /// A scene with no obstacles.
    pub fn new() -> (r: Scene)
        ensures
            r.walls@.len() == 0,
    {
        Scene { walls: Vec::new() }
    }

    /// Replaces every obstacle: the borders of a `width` by `height` viewport,
    /// then `RANDOM_WALLS` segments with endpoints drawn uniformly at random in
    /// the viewport.
    pub fn regenerate(&mut self, width: i16, height: i16)
        requires
            width >= 0,
            height >= 0,
        ensures
            regenerated(final(self).walls@, width, height),
    {
        let mut walls: Vec<Boundary> = Vec::new();
        walls.push(Boundary::new(Point::new(0, 0), Point::new(0, height)));
        walls.push(Boundary::new(Point::new(0, 0), Point::new(width, 0)));
        walls.push(Boundary::new(Point::new(0, height), Point::new(width, height)));
        walls.push(Boundary::new(Point::new(width, 0), Point::new(width, height)));
        assert(walls@ =~= border_walls(width, height));
        let mut n: usize = 0;
        while n < RANDOM_WALLS
            invariant
                n <= RANDOM_WALLS,
                width >= 0,
                height >= 0,
                walls@.len() == 4 + n,
                walls@.subrange(0, 4) == border_walls(width, height),
                forall|i: int|
                    4 <= i < walls@.len() ==> in_viewport(#[trigger] walls@[i].a, width, height)
                        && in_viewport(walls@[i].b, width, height),
            decreases RANDOM_WALLS - n,
        {
            let x1 = random_between(0, width);
            let y1 = random_between(0, height);
            let x2 = random_between(0, width);
            let y2 = random_between(0, height);
            walls.push(Boundary::new(Point::new(x1, y1), Point::new(x2, y2)));
            assert(walls@.subrange(0, 4) =~= border_walls(width, height));
            n = n + 1;
        }
        self.walls = walls;
    }

    /// One frame: regenerates the obstacles first if asked to, then places a
    /// light at `pointer`, casts one ray along each of `directions`, and
    /// returns the light with the nearest hit of each ray.
    pub fn frame(
        &mut self,
        regenerate: bool,
        width: i16,
        height: i16,
        pointer: Point,
        directions: &Vec<Point>,
    ) -> (r: (Particle, Vec<Option<Hit>>))
        requires
            regenerate ==> width >= 0 && height >= 0,
        ensures
            regenerate ==> regenerated(final(self).walls@, width, height),
            !regenerate ==> final(self).walls@ == old(self).walls@,
            r.0.position == pointer,
            r.0.rays@.len() == directions@.len(),
            forall|i: int|
                0 <= i < directions@.len() ==> #[trigger] r.0.rays@[i] == (Ray { position: pointer, direction: directions@[i] }),
            nearest_hits(pointer, r.0.rays@, final(self).walls@, r.1@),
    {
        if regenerate {
            self.regenerate(width, height);
        }
        let mut light = Particle::new(pointer);
        let hits = light.update(directions, &self.walls);
        (light, hits)
    }
}

} // verus!
