//! Rays: an origin, a direction, and a time for motion blur.

use vstd::prelude::*;
use crate::vec3::{add_v, scale_v, Point3, Vec3};

verus! {

#[derive(Clone, Copy, Debug, PartialEq, Eq, Structural)]
pub struct Ray {
    pub origin: Point3,
    pub direction: Vec3,
    pub tm: i64,
}

/// The point reached after parameter `t` along the ray.
pub open spec fn at_s(r: Ray, t: int) -> Point3 {
    add_v(r.origin, scale_v(r.direction, t))
}

impl Ray {
    pub fn new() -> (r: Ray)
        ensures
            r == (Ray {
                origin: Vec3 { x: 0i64, y: 0i64, z: 0i64 },
                direction: Vec3 { x: 0i64, y: 0i64, z: 0i64 },
                tm: 0i64,
            }),
    {
        Ray { origin: Vec3::zeros(), direction: Vec3::zeros(), tm: 0 }
    }

    pub fn from(origin: Point3, direction: Vec3, tm: i64) -> (r: Ray)
        ensures
            r == (Ray { origin, direction, tm }),
    {
        Ray { origin, direction, tm }
    }

    pub fn origin(self) -> (r: Point3)
        ensures
            r == self.origin,
    {
        self.origin
    }

    pub fn direction(self) -> (r: Vec3)
        ensures
            r == self.direction,
    {
        self.direction
    }

    pub fn time(self) -> (r: i64)
        ensures
            r == self.tm,
    {
        self.tm
    }

    /// The point reached after parameter `t` along the ray.
    pub fn at(self, t: i64) -> (r: Point3)
        ensures
            r == at_s(self, t as int),
    {
        self.origin.add(self.direction.mul_scalar(t))
    }
}

} // verus!
