//! Spheres, stationary or moving, with the analytic quadratic
//! intersection in fixed point.

use vstd::prelude::*;
use crate::aabb::{union_b, Aabb};
use crate::fixed::{
    fadd, fadd_s, fdiv, fdiv_s, fmul, fmul_s, fneg, fneg_s, fsqrt, fsqrt_s, fsub,
    fsub_s, FMAX, ONE,
};
use crate::hittable::{face_normal_s, front_face_s, HitRecord};
use crate::interval::{surrounds_s, Interval};
use crate::ray::{at_s, Ray};
use crate::trig::{acos_s, atan2_s, PI_F, TWO_PI_F};
use crate::vec3::{
    add_v, div_scale_v, dot_v, len_sq_v, scale_v, sub_v, Point3, Vec3,
};

verus! {

#[derive(Clone, Copy, Debug, PartialEq, Eq, Structural)]
pub struct Sphere {
    pub center: Point3,
    pub radius: i64,
    pub mat: usize,
    pub is_moving: bool,
    pub center_vec: Vec3,
    pub bbox: Aabb,
}

/// The center at a ray time: moving spheres interpolate linearly.
pub open spec fn sphere_center_s(s: Sphere, time: int) -> Point3 {
    if s.is_moving {
        add_v(s.center, scale_v(s.center_vec, time))
    } else {
        s.center
    }
}

/// Texture coordinates of a point on the unit sphere, from the angle
/// around the vertical axis and the angle from the bottom pole.
pub open spec fn sphere_uv_s(p: Point3) -> (int, int) {
    let theta = acos_s(fneg_s(p.y as int));
    let phi = fadd_s(atan2_s(fneg_s(p.z as int), p.x as int), PI_F as int);
    (fdiv_s(phi, TWO_PI_F as int), fdiv_s(theta, PI_F as int))
}

/// The hit record a sphere reports for an accepted root.
pub open spec fn sphere_rec_s(s: Sphere, r: Ray, center: Point3, root: int) ->
    HitRecord {
    let p = at_s(r, root);
    let outward = div_scale_v(sub_v(p, center), s.radius as int);
    let uv = sphere_uv_s(outward);
    HitRecord {
        p,
        normal: face_normal_s(r, outward),
        mat: s.mat,
        t: root as i64,
        u: uv.0 as i64,
        v: uv.1 as i64,
        front_face: front_face_s(r, outward),
    }
}

/// The analytic sphere intersection: solve the quadratic, try the nearer
/// root first, and accept a root only strictly inside the interval. A
/// negative discriminant or a degenerate ray direction is a no-hit.
pub open spec fn sphere_hit_s(s: Sphere, r: Ray, ray_t: Interval) -> Option<HitRecord> {
    let center = sphere_center_s(s, r.tm as int);
    let oc = sub_v(r.origin, center);
    let a = len_sq_v(r.direction);
    let half_b = dot_v(oc, r.direction);
    let c = fsub_s(len_sq_v(oc), fmul_s(s.radius as int, s.radius as int));
    let disc = fsub_s(fmul_s(half_b, half_b), fmul_s(a, c));
    if disc < 0 || a == 0 {
        None
    } else {
        let sqrtd = fsqrt_s(disc);
        let root1 = fdiv_s(fsub_s(fneg_s(half_b), sqrtd), a);
        let root2 = fdiv_s(fadd_s(fneg_s(half_b), sqrtd), a);
        if surrounds_s(ray_t, root1) {
            Some(sphere_rec_s(s, r, center, root1))
        } else if surrounds_s(ray_t, root2) {
            Some(sphere_rec_s(s, r, center, root2))
        } else {
            None
        }
    }
}

impl Sphere {
    /// A degenerate default sphere at the origin.
    pub fn new() -> (r: Sphere)
        ensures
            r.center == (Vec3 { x: 0i64, y: 0i64, z: 0i64 }),
            r.radius == 0i64,
            r.mat == 0usize,
            !r.is_moving,
            r.center_vec == (Vec3 { x: 0i64, y: 0i64, z: 0i64 }),
    {
        Sphere {
            center: Vec3::zeros(),
            radius: 0,
            mat: 0,
            is_moving: false,
            center_vec: Vec3::zeros(),
            bbox: Aabb::new(),
        }
    }

    /// A sphere from every field.
    pub fn from(center: Point3, radius: i64, mat: usize, center_vec: Vec3,
        is_moving: bool, bbox: Aabb) -> (r: Sphere)
        ensures
            r == (Sphere { center, radius, mat, is_moving, center_vec, bbox }),
    {
        Sphere { center, radius, mat, is_moving, center_vec, bbox }
    }

    /// A stationary sphere; its box spans one radius on each side.
    pub fn new_stationnary(center: Point3, radius: i64, mat: usize) -> (r: Sphere)
        ensures
            r.center == center,
            r.radius == radius,
            r.mat == mat,
            !r.is_moving,
            r.center_vec == (Vec3 { x: 0i64, y: 0i64, z: 0i64 }),
            r.bbox == sphere_box_s(center, radius as int),
    {
        let rvec = Vec3 { x: radius, y: radius, z: radius };
        let bbox = Aabb::from_points(center.sub(rvec), center.add(rvec));
        Sphere { center, radius, mat, is_moving: false, center_vec: Vec3::zeros(),
            bbox }
    }

    /// A sphere moving from one center to another over unit time; its box
    /// is the union of two corner boxes covering both endpoints.
    pub fn new_moving(center1: Point3, center2: Point3, radius: i64, mat: usize) -> (r:
        Sphere)
        ensures
            r.center == center1,
            r.radius == radius,
            r.mat == mat,
            r.is_moving,
            r.center_vec == sub_v(center2, center1),
            r.bbox == union_b(moving_box_s(center1, center2, radius as int),
                moving_box_s(center2, center1, radius as int)),
    {
        let rvec = Vec3 { x: radius, y: radius, z: radius };
        let box1 = Aabb::from_points(center1.sub(rvec), center2.add(rvec));
        let box2 = Aabb::from_points(center2.sub(rvec), center1.add(rvec));
        Sphere {
            center: center1,
            radius,
            mat,
            is_moving: true,
            center_vec: center2.sub(center1),
            bbox: Aabb::from_bbox(box1, box2),
        }
    }

    /// The center at a ray time.
    fn sphere_center(&self, time: i64) -> (r: Point3)
        ensures
            r == sphere_center_s(*self, time as int),
    {
        if self.is_moving {
            self.center.add(self.center_vec.mul_scalar(time))
        } else {
            self.center
        }
    }

    /// Texture coordinates of a point on the unit sphere.
    pub fn get_sphere_uv(p: &Point3) -> (r: (i64, i64))
        ensures
            r.0 as int == sphere_uv_s(*p).0,
            r.1 as int == sphere_uv_s(*p).1,
    {
        let theta = crate::trig::acos_f(fneg(p.y));
        let phi = fadd(crate::trig::atan2_f(fneg(p.z), p.x), PI_F);
        (fdiv(phi, TWO_PI_F), fdiv(theta, PI_F))
    }

    /// The nearest root of the quadratic strictly inside the interval, as
    /// a hit record, or nothing.
    pub fn hit(&self, r: &Ray, ray_t: Interval) -> (res: Option<HitRecord>)
        ensures
            res == sphere_hit_s(*self, *r, ray_t),
            res matches Some(rec) ==> surrounds_s(ray_t, rec.t as int) && -FMAX <= rec.t
                <= FMAX,
    {
        let center = self.sphere_center(r.tm);
        let oc = r.origin.sub(center);
        let a = r.direction.length_squared();
        let half_b = oc.dot(r.direction);
        let c = fsub(oc.length_squared(), fmul(self.radius, self.radius));
        let discriminant = fsub(fmul(half_b, half_b), fmul(a, c));
        if discriminant < 0 || a == 0 {
            return None;
        }
        let sqrtd = fsqrt(discriminant);
        let mut root = fdiv(fsub(fneg(half_b), sqrtd), a);
        if !ray_t.surrounds(root) {
            root = fdiv(fadd(fneg(half_b), sqrtd), a);
            if !ray_t.surrounds(root) {
                return None;
            }
        }
        let p = r.at(root);
        let outward_normal = p.sub(center).div_scalar(self.radius);
        let mut rec = HitRecord::new();
        rec.t = root;
        rec.p = p;
        rec.set_face_normal(r, &outward_normal);
        let uv = Sphere::get_sphere_uv(&outward_normal);
        rec.u = uv.0;
        rec.v = uv.1;
        rec.mat = self.mat;
        Some(rec)
    }
}

/// The box of a stationary sphere: one radius on each side.
pub open spec fn sphere_box_s(center: Point3, radius: int) -> Aabb {
    let lo = sub_v(center, Vec3 { x: radius as i64, y: radius as i64, z: radius as i64 });
    let hi = add_v(center, Vec3 { x: radius as i64, y: radius as i64, z: radius as i64 });
    corner_box_s(lo, hi)
}

/// One corner box of a moving sphere.
pub open spec fn moving_box_s(ca: Point3, cb: Point3, radius: int) -> Aabb {
    let lo = sub_v(ca, Vec3 { x: radius as i64, y: radius as i64, z: radius as i64 });
    let hi = add_v(cb, Vec3 { x: radius as i64, y: radius as i64, z: radius as i64 });
    corner_box_s(lo, hi)
}

/// The box spanned by two corner points, taking per-axis minima and
/// maxima.
pub open spec fn corner_box_s(a: Point3, b: Point3) -> Aabb {
    Aabb {
        x: Interval {
            min: if a.x <= b.x { a.x } else { b.x },
            max: if a.x >= b.x { a.x } else { b.x },
        },
        y: Interval {
            min: if a.y <= b.y { a.y } else { b.y },
            max: if a.y >= b.y { a.y } else { b.y },
        },
        z: Interval {
            min: if a.z <= b.z { a.z } else { b.z },
            max: if a.z >= b.z { a.z } else { b.z },
        },
    }
}

} // verus!
