//! Ray-scene intersection core: closed numeric intervals, axis-aligned
//! bounding boxes, hittable geometry (spheres, quads, transforms, a
//! participating medium, aggregates), a bounding-volume hierarchy, and the
//! surface-scattering model, all over exact saturating fixed-point
//! arithmetic so that every operation is pinned by an integer formula.
//!
//! Randomness is drawn from one seedable handle passed explicitly to every
//! operation that needs it, so hierarchy shapes and scatter outcomes are
//! reproducible from a seed.

pub mod fixed;
pub mod interval;
pub mod rng;
pub mod rtweekend;
pub mod vec3;
pub mod perlin;
pub mod ray;
pub mod aabb;
pub mod trig;
pub mod texture;
pub mod material;
pub mod hittable;
pub mod sphere;
pub mod quad;
pub mod hittable_list;
pub mod constant_medium;
pub mod bvh;
