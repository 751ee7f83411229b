//! Exact integer geometry for a 2D light-ray simulation: a light source casts a
//! fan of rays, each ray is intersected with line-segment obstacles, and the
//! nearest hit per ray is kept.
//!
//! Coordinates are integers (pixels); ray directions are fixed-point vectors of
//! any nonzero length. Intersections are exact rational points, so no hit is
//! lost or invented by rounding.

mod boundary;
mod geometry;
mod particle;
mod ray;
mod scene;

pub use boundary::Boundary;
pub use geometry::{dist_sq, distance_squared, lemma_distance_symmetric, Point};
pub use particle::{
    is_nearest, lemma_cast_repeatable, lemma_nearest_unique, nearest_hits, sample_angles, Particle,
    RAY_COUNT,
};
pub use ray::{cast_spec, crosses, lemma_cast_on_boundary, nearer, Hit, Ray};
pub use scene::{border_walls, in_viewport, regenerated, Scene, RANDOM_WALLS};
