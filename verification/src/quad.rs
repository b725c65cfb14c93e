//! Planar quadrilaterals: a corner point and two edge vectors, with the
//! ray-plane intersection and the interior test in plane coordinates.

use vstd::prelude::*;
use crate::aabb::{pad_s, Aabb};
use crate::fixed::{fdiv, fdiv_s, fsub, fsub_s, FMAX, ONE};
use crate::hittable::{face_normal_s, front_face_s, HitRecord, Hittable};
use crate::hittable_list::HittableList;
use crate::interval::{contains_s, Interval};
use crate::ray::{at_s, Ray};
use crate::vec3::{add_v, cross_v, div_scale_v, dot_v, sub_v, unit_v, Point3,
    Vec3};

verus! {

#[derive(Clone, Copy, Debug, PartialEq, Eq, Structural)]
pub struct Quad {
    pub q: Point3,
    pub u: Vec3,
    pub v: Vec3,
    pub mat: usize,
    pub bbox: Aabb,
    pub normal: Vec3,
    pub d: i64,
    pub w: Vec3,
}

/// Whether plane coordinates land inside the unit square.
pub open spec fn interior_s(a: int, b: int) -> bool {
    0 <= a <= ONE && 0 <= b <= ONE
}

/// The quad value built from a corner point, two edge vectors and a
/// material: the plane's normal, offset and coordinate basis, and the
/// padded box of all four corners.
#[verifier::opaque]
pub open spec fn quad_s(q: Point3, u: Vec3, v: Vec3, mat: usize) -> Quad {
    let n = cross_v(u, v);
    Quad {
        q,
        u,
        v,
        mat,
        bbox: quad_box_s(q, u, v),
        normal: unit_v(n),
        d: dot_v(unit_v(n), q) as i64,
        w: div_scale_v(n, dot_v(n, n)),
    }
}

/// The ray-plane intersection, rejected for parallel rays, parameters
/// outside the interval, or plane coordinates outside the quad.
pub open spec fn quad_hit_s(qd: Quad, r: Ray, ray_t: Interval) -> Option<HitRecord> {
    let dnom = dot_v(qd.normal, r.direction);
    if dnom == 0 {
        None
    } else {
        let t = fdiv_s(fsub_s(qd.d as int, dot_v(qd.normal, r.origin)), dnom);
        if !contains_s(ray_t, t) {
            None
        } else {
            let intersection = at_s(r, t);
            let phv = sub_v(intersection, qd.q);
            let alpha = dot_v(qd.w, cross_v(phv, qd.v));
            let beta = dot_v(qd.w, cross_v(qd.u, phv));
            if !interior_s(alpha, beta) {
                None
            } else {
                Some(HitRecord {
                    p: intersection,
                    normal: face_normal_s(r, qd.normal),
                    mat: qd.mat,
                    t: t as i64,
                    u: alpha as i64,
                    v: beta as i64,
                    front_face: front_face_s(r, qd.normal),
                })
            }
        }
    }
}

impl Quad {
    /// A quad from a corner point and two edge vectors: the plane's
    /// normal, offset and coordinate basis are fixed at construction, and
    /// the box is padded so the planar shape still owns a volume.
    pub fn from(q: Point3, u: Vec3, v: Vec3, mat: usize) -> (r: Quad)
        ensures
            r == quad_s(q, u, v, mat),
    {
        proof {
            reveal(quad_s);
        }
        let n = u.cross(v);
        let normal = n.unit_vector();
        let d = normal.dot(q);
        let w = n.div_scalar(n.dot(n));
        let bbox = Quad::set_bounding_box(q, u, v);
        Quad { q, u, v, mat, bbox, normal, d, w }
    }

    /// The padded box of all four of the quad's corners.
    pub fn set_bounding_box(q: Point3, u: Vec3, v: Vec3) -> (r: Aabb)
        ensures
            r == quad_box_s(q, u, v),
    {
        let diag1 = Aabb::from_points(q, q.add(u).add(v));
        let diag2 = Aabb::from_points(q.add(u), q.add(v));
        Aabb::from_bbox(diag1, diag2).pad()
    }

    /// Whether plane coordinates land inside the quad; when they do, they
    /// become the record's texture coordinates.
    pub fn is_interior(a: i64, b: i64, rec: &mut HitRecord) -> (r: bool)
        ensures
            r == interior_s(a as int, b as int),
            r ==> *final(rec) == (HitRecord { u: a, v: b, ..*old(rec) }),
            !r ==> *final(rec) == *old(rec),
    {
        if a < 0 || ONE < a || b < 0 || ONE < b {
            return false;
        }
        rec.u = a;
        rec.v = b;
        true
    }

    /// The ray-plane intersection clipped to the quad.
    pub fn hit(&self, r: &Ray, ray_t: Interval) -> (res: Option<HitRecord>)
        ensures
            res == quad_hit_s(*self, *r, ray_t),
            res matches Some(rec) ==> contains_s(ray_t, rec.t as int) && -FMAX <= rec.t
                <= FMAX,
    {
        let dnom = self.normal.dot(r.direction);
        if dnom == 0 {
            return None;
        }
        let t = fdiv(fsub(self.d, self.normal.dot(r.origin)), dnom);
        if !ray_t.contains(t) {
            return None;
        }
        let intersection = r.at(t);
        let plana_hipt_vector = intersection.sub(self.q);
        let alpha = self.w.dot(plana_hipt_vector.cross(self.v));
        let beta = self.w.dot(self.u.cross(plana_hipt_vector));
        let mut rec = HitRecord::new();
        if !Quad::is_interior(alpha, beta, &mut rec) {
            return None;
        }
        rec.t = t;
        rec.p = intersection;
        rec.mat = self.mat;
        rec.set_face_normal(r, &self.normal);
        Some(rec)
    }
}

/// The padded box spanned by all four of a quad's corners: the union of
/// the boxes of both corner diagonals, thickened on degenerate axes.
pub open spec fn quad_box_s(q: Point3, u: Vec3, v: Vec3) -> Aabb {
    pad_s(crate::aabb::union_b(
        crate::sphere::corner_box_s(q, add_v(add_v(q, u), v)),
        crate::sphere::corner_box_s(add_v(q, u), add_v(q, v)),
    ))
}

/// The six faces of the axis-aligned prism whose opposite corners are the
/// componentwise minimum and maximum of `a` and `b`, all on one material:
/// front, right, back, and left walls around the vertical edges, then the
/// top and the bottom.
pub open spec fn box_sides_s(a: Point3, b: Point3, mat: usize) -> Seq<Hittable> {
    let min = Vec3 {
        x: if (a.x as int) < (b.x as int) { a.x } else { b.x },
        y: if (a.y as int) < (b.y as int) { a.y } else { b.y },
        z: if (a.z as int) < (b.z as int) { a.z } else { b.z },
    };
    let max = Vec3 {
        x: if (a.x as int) > (b.x as int) { a.x } else { b.x },
        y: if (a.y as int) > (b.y as int) { a.y } else { b.y },
        z: if (a.z as int) > (b.z as int) { a.z } else { b.z },
    };
    let dx = Vec3 { x: fsub_s(max.x as int, min.x as int) as i64, y: 0i64, z: 0i64 };
    let dy = Vec3 { x: 0i64, y: fsub_s(max.y as int, min.y as int) as i64, z: 0i64 };
    let dz = Vec3 { x: 0i64, y: 0i64, z: fsub_s(max.z as int, min.z as int) as i64 };
    let ndx = Vec3 { x: crate::fixed::fneg_s(dx.x as int) as i64, y: 0i64, z: 0i64 };
    let ndz = Vec3 { x: 0i64, y: 0i64, z: crate::fixed::fneg_s(dz.z as int) as i64 };
    seq![
        Hittable::Quad(quad_s(Vec3 { x: min.x, y: min.y, z: max.z }, dx, dy, mat)),
        Hittable::Quad(quad_s(Vec3 { x: max.x, y: min.y, z: max.z }, ndz, dy, mat)),
        Hittable::Quad(quad_s(Vec3 { x: max.x, y: min.y, z: min.z }, ndx, dy, mat)),
        Hittable::Quad(quad_s(Vec3 { x: min.x, y: min.y, z: min.z }, dz, dy, mat)),
        Hittable::Quad(quad_s(Vec3 { x: min.x, y: max.y, z: max.z }, dx, ndz, mat)),
        Hittable::Quad(quad_s(Vec3 { x: min.x, y: min.y, z: min.z }, dx, dz, mat)),
    ]
}

/// A closed rectangular prism of six quads spanning two opposite corners,
/// all sharing one material.
#[verifier::rlimit(60)]
pub fn box_volume(a: Point3, b: Point3, mat: usize) -> (r: HittableList)
    ensures
        r.objects@ =~= box_sides_s(a, b, mat),
        r.objects@.len() == 6,
{
    let mut sides = HittableList::new();

    let min = Vec3 {
        x: crate::fixed::fmin(a.x, b.x),
        y: crate::fixed::fmin(a.y, b.y),
        z: crate::fixed::fmin(a.z, b.z),
    };
    let max = Vec3 {
        x: crate::fixed::fmax(a.x, b.x),
        y: crate::fixed::fmax(a.y, b.y),
        z: crate::fixed::fmax(a.z, b.z),
    };

    let dx = Vec3 { x: fsub(max.x, min.x), y: 0, z: 0 };
    let dy = Vec3 { x: 0, y: fsub(max.y, min.y), z: 0 };
    let dz = Vec3 { x: 0, y: 0, z: fsub(max.z, min.z) };

    let ndx = Vec3 { x: crate::fixed::fneg(dx.x), y: 0, z: 0 };
    let ndz = Vec3 { x: 0, y: 0, z: crate::fixed::fneg(dz.z) };

    sides.add(Hittable::Quad(Quad::from(Vec3 { x: min.x, y: min.y, z: max.z }, dx, dy,
        mat)));
    sides.add(Hittable::Quad(Quad::from(Vec3 { x: max.x, y: min.y, z: max.z }, ndz, dy,
        mat)));
    sides.add(Hittable::Quad(Quad::from(Vec3 { x: max.x, y: min.y, z: min.z }, ndx, dy,
        mat)));
    sides.add(Hittable::Quad(Quad::from(Vec3 { x: min.x, y: min.y, z: min.z }, dz, dy,
        mat)));
    sides.add(Hittable::Quad(Quad::from(Vec3 { x: min.x, y: max.y, z: max.z }, dx, ndz,
        mat)));
    sides.add(Hittable::Quad(Quad::from(Vec3 { x: min.x, y: min.y, z: min.z }, dx, dz,
        mat)));

    proof {
        let spec_sides = box_sides_s(a, b, mat);
        assert(sides.objects@.len() == 6);
        assert(sides.objects@[0] == spec_sides[0]);
        assert(sides.objects@[1] == spec_sides[1]);
        assert(sides.objects@[2] == spec_sides[2]);
        assert(sides.objects@[3] == spec_sides[3]);
        assert(sides.objects@[4] == spec_sides[4]);
        assert(sides.objects@[5] == spec_sides[5]);
        assert(sides.objects@ =~= spec_sides);
    }
    sides
}

} // verus!
