//! The hittable geometry abstraction: a closed set of variants dispatched
//! by pattern match, each answering a ray query with the nearest hit in a
//! parameter interval, or nothing.
//!
//! Every deterministic variant is pinned by a recursive spec mirror
//! (`hit_rec_s`); the participating medium draws randomness, so of it only
//! interval membership is promised.

use vstd::prelude::*;
use crate::aabb::{hit_b, Aabb};
use crate::bvh::BvhNode;
use crate::constant_medium::ConstantMedium;
use crate::fixed::{fadd, fadd_s, fmul, fmul_s, fneg, fneg_s, fsub, fsub_s, FMAX, ONE};
use crate::hittable_list::HittableList;
use crate::interval::{contains_s, Interval};
use crate::quad::{quad_hit_s, Quad};
use crate::ray::Ray;
use crate::rng::Rng;
use crate::sphere::{sphere_hit_s, Sphere};
use crate::vec3::{add_v, dot_v, scale_v, sub_v, Point3, Vec3};

verus! {

#[derive(Clone, Copy, Debug, PartialEq, Eq, Structural)]
pub struct HitRecord {
    pub p: Point3,
    pub normal: Vec3,
    pub mat: usize,
    pub t: i64,
    pub u: i64,
    pub v: i64,
    pub front_face: bool,
}

/// Whether the geometric normal opposes the incoming ray.
pub open spec fn front_face_s(r: Ray, outward: Vec3) -> bool {
    dot_v(r.direction, outward) < 0
}

/// The stored normal: the outward normal, flipped to oppose the ray.
pub open spec fn face_normal_s(r: Ray, outward: Vec3) -> Vec3 {
    if front_face_s(r, outward) {
        outward
    } else {
        scale_v(outward, -(ONE as int))
    }
}

impl HitRecord {
    pub fn new() -> (r: HitRecord)
        ensures
            r == (HitRecord {
                p: Vec3 { x: 0i64, y: 0i64, z: 0i64 },
                normal: Vec3 { x: 0i64, y: 0i64, z: 0i64 },
                mat: 0usize,
                t: 0i64,
                u: 0i64,
                v: 0i64,
                front_face: false,
            }),
    {
        HitRecord {
            p: Vec3::zeros(),
            normal: Vec3::zeros(),
            mat: 0,
            t: 0,
            u: 0,
            v: 0,
            front_face: false,
        }
    }

    /// Record which side was hit and store the normal opposing the ray.
    pub fn set_face_normal(&mut self, r: &Ray, outward_normal: &Vec3)
        ensures
            final(self).front_face == front_face_s(*r, *outward_normal),
            final(self).normal == face_normal_s(*r, *outward_normal),
            final(self).p == old(self).p,
            final(self).mat == old(self).mat,
            final(self).t == old(self).t,
            final(self).u == old(self).u,
            final(self).v == old(self).v,
    {
        self.front_face = r.direction.dot(*outward_normal) < 0;
        self.normal = if self.front_face {
            *outward_normal
        } else {
            outward_normal.mul_scalar(-ONE)
        };
    }
}

/// A rigid translation of a wrapped hittable.
#[derive(Debug)]
pub struct Translate {
    pub object: Box<Hittable>,
    pub offset: Vec3,
    pub bbox: Aabb,
}

/// A rotation of a wrapped hittable about the vertical axis.
#[derive(Debug)]
pub struct RotateY {
    pub object: Box<Hittable>,
    pub sin_theta: i64,
    pub cos_theta: i64,
    pub bbox: Aabb,
}

/// The closed set of geometry variants.
#[derive(Debug)]
pub enum Hittable {
    Sphere(Sphere),
    Quad(Quad),
    Translate(Translate),
    RotateY(RotateY),
    ConstantMedium(ConstantMedium),
    List(HittableList),
    Node(BvhNode),
}

/// Whether a hittable's queries are a function of the ray alone: only the
/// participating medium draws randomness.
pub open spec fn no_random_s(h: Hittable) -> bool
    decreases h,
{
    match h {
        Hittable::Sphere(_) => true,
        Hittable::Quad(_) => true,
        Hittable::Translate(t) => no_random_s(*t.object),
        Hittable::RotateY(ry) => no_random_s(*ry.object),
        Hittable::ConstantMedium(_) => false,
        Hittable::List(l) => no_random_seq_s(l.objects@),
        Hittable::Node(n) => no_random_s(*n.left) && no_random_s(*n.right),
    }
}

/// Whether every object in a sequence is free of randomness.
pub open spec fn no_random_seq_s(objs: Seq<Hittable>) -> bool
    decreases objs,
{
    forall|k: int| 0 <= k < objs.len() ==> no_random_s(#[trigger] objs[k])
}

/// The stored bounding box of a hittable.
pub open spec fn bbox_s(h: Hittable) -> Aabb
    decreases h,
{
    match h {
        Hittable::Sphere(s) => s.bbox,
        Hittable::Quad(q) => q.bbox,
        Hittable::Translate(t) => t.bbox,
        Hittable::RotateY(ry) => ry.bbox,
        Hittable::ConstantMedium(m) => bbox_s(*m.boundaries),
        Hittable::List(l) => l.bbox,
        Hittable::Node(n) => n.bbox,
    }
}

/// A point rotated from world space into object space.
pub open spec fn rot_w2o_s(cos: int, sin: int, v: Vec3) -> Vec3 {
    Vec3 {
        x: fsub_s(fmul_s(cos, v.x as int), fmul_s(sin, v.z as int)) as i64,
        y: v.y,
        z: fadd_s(fmul_s(sin, v.x as int), fmul_s(cos, v.z as int)) as i64,
    }
}

/// A point rotated from object space back into world space.
pub open spec fn rot_o2w_s(cos: int, sin: int, v: Vec3) -> Vec3 {
    Vec3 {
        x: fadd_s(fmul_s(cos, v.x as int), fmul_s(sin, v.z as int)) as i64,
        y: v.y,
        z: fadd_s(fmul_s(fneg_s(sin), v.x as int), fmul_s(cos, v.z as int)) as i64,
    }
}

/// The hit a translated object reports: the ray moved back by the offset,
/// the hit point moved forward by it.
pub open spec fn translate_hit_s(t: Translate, r: Ray, ray_t: Interval) -> Option<
    HitRecord,
>
    decreases t,
{
    let moved = Ray { origin: sub_v(r.origin, t.offset), direction: r.direction,
        tm: r.tm };
    match hit_rec_s(*t.object, moved, ray_t) {
        None => None,
        Some(rec) => Some(HitRecord { p: add_v(rec.p, t.offset), ..rec }),
    }
}

/// The hit a rotated object reports: the ray rotated into object space,
/// the hit point and normal rotated back.
pub open spec fn rotate_hit_s(ry: RotateY, r: Ray, ray_t: Interval) -> Option<
    HitRecord,
>
    decreases ry,
{
    let c = ry.cos_theta as int;
    let s = ry.sin_theta as int;
    let rotated = Ray {
        origin: rot_w2o_s(c, s, r.origin),
        direction: rot_w2o_s(c, s, r.direction),
        tm: r.tm,
    };
    match hit_rec_s(*ry.object, rotated, ray_t) {
        None => None,
        Some(rec) => Some(HitRecord {
            p: rot_o2w_s(c, s, rec.p),
            normal: rot_o2w_s(c, s, rec.normal),
            ..rec
        }),
    }
}

/// The hit a hierarchy node reports: nothing when the slab test rejects
/// its box; otherwise the left child is queried with the full interval and
/// the right child with the upper bound tightened to the left hit, so the
/// nearer of the two survives.
pub open spec fn node_hit_s(n: BvhNode, r: Ray, ray_t: Interval) -> Option<HitRecord>
    decreases n,
{
    if !hit_b(n.bbox, r, ray_t) {
        None
    } else {
        let lh = hit_rec_s(*n.left, r, ray_t);
        let upper = match lh {
            Some(rec) => rec.t,
            None => ray_t.max,
        };
        let rh = hit_rec_s(*n.right, r, Interval { min: ray_t.min, max: upper });
        match rh {
            Some(_) => rh,
            None => lh,
        }
    }
}

/// The nearest hit over a sequence of objects: each object is queried with
/// the upper bound tightened to the best hit found so far, so only a
/// strictly closer hit replaces it.
pub open spec fn list_hit_s(objs: Seq<Hittable>, r: Ray, ray_t: Interval) -> Option<
    HitRecord,
>
    decreases objs,
{
    if objs.len() == 0 {
        None
    } else {
        match hit_rec_s(objs[0], r, ray_t) {
            None => list_hit_s(objs.drop_first(), r, ray_t),
            Some(rec) => match list_hit_s(objs.drop_first(), r, Interval {
                min: ray_t.min,
                max: rec.t,
            }) {
                None => Some(rec),
                Some(r2) => Some(r2),
            },
        }
    }
}

/// The deterministic hit semantics of a hittable. The participating
/// medium draws randomness, so its case is left at no-hit and nothing is
/// claimed of it through this function.
pub open spec fn hit_rec_s(h: Hittable, r: Ray, ray_t: Interval) -> Option<HitRecord>
    decreases h,
{
    match h {
        Hittable::Sphere(s) => sphere_hit_s(s, r, ray_t),
        Hittable::Quad(q) => quad_hit_s(q, r, ray_t),
        Hittable::Translate(t) => translate_hit_s(t, r, ray_t),
        Hittable::RotateY(ry) => rotate_hit_s(ry, r, ray_t),
        Hittable::ConstantMedium(_) => None,
        Hittable::List(l) => list_hit_s(l.objects@, r, ray_t),
        Hittable::Node(n) => node_hit_s(n, r, ray_t),
    }
}

impl Hittable {
    /// The nearest intersection of the ray with this geometry inside the
    /// parameter interval, or nothing. Every deterministic variant is
    /// pinned exactly by the spec mirror; a reported parameter always lies
    /// within the queried interval.
    pub fn hit(&self, r: &Ray, ray_t: Interval, rng: &mut Rng) -> (res: Option<
        HitRecord,
    >)
        requires
            -FMAX <= ray_t.min,
            ray_t.max <= FMAX,
        ensures
            no_random_s(*self) ==> res == hit_rec_s(*self, *r, ray_t),
            res matches Some(rec) ==> contains_s(ray_t, rec.t as int) && -FMAX <= rec.t
                <= FMAX,
        decreases *self,
    {
        match self {
            Hittable::Sphere(s) => s.hit(r, ray_t),
            Hittable::Quad(q) => q.hit(r, ray_t),
            Hittable::Translate(t) => t.hit(r, ray_t, rng),
            Hittable::RotateY(ry) => ry.hit(r, ray_t, rng),
            Hittable::ConstantMedium(m) => m.hit(r, ray_t, rng),
            Hittable::List(l) => l.hit(r, ray_t, rng),
            Hittable::Node(n) => n.hit(r, ray_t, rng),
        }
    }

    /// The stored bounding box of this geometry.
    pub fn bounding_box(&self) -> (r: Aabb)
        ensures
            r == bbox_s(*self),
        decreases *self,
    {
        match self {
            Hittable::Sphere(s) => s.bbox,
            Hittable::Quad(q) => q.bbox,
            Hittable::Translate(t) => t.bbox,
            Hittable::RotateY(ry) => ry.bbox,
            Hittable::ConstantMedium(m) => m.boundaries.bounding_box(),
            Hittable::List(l) => l.bbox,
            Hittable::Node(n) => n.bbox,
        }
    }
}

impl Translate {
    /// A wrapped object shifted by `displacement`; the box is the child's
    /// box shifted the same way.
    pub fn from(object: Box<Hittable>, displacement: Vec3) -> (r: Translate)
        ensures
            r.object == object,
            r.offset == displacement,
            r.bbox == crate::aabb::shift_b(bbox_s(*object), displacement),
    {
        let bbox = Aabb::from_bbox_vec(object.bounding_box(), displacement);
        Translate { object, offset: displacement, bbox }
    }

    /// Query the child along the backward-shifted ray and shift the hit
    /// point forward again.
    pub fn hit(&self, r: &Ray, ray_t: Interval, rng: &mut Rng) -> (res: Option<
        HitRecord,
    >)
        requires
            -FMAX <= ray_t.min,
            ray_t.max <= FMAX,
        ensures
            no_random_s(*self.object) ==> res == translate_hit_s(*self, *r, ray_t),
            res matches Some(rec) ==> contains_s(ray_t, rec.t as int) && -FMAX <= rec.t
                <= FMAX,
        decreases *self,
    {
        let offset_r = Ray::from(r.origin.sub(self.offset), r.direction, r.tm);
        let inner = self.object.hit(&offset_r, ray_t, rng);
        match inner {
            None => None,
            Some(rec) => {
                let mut moved = rec;
                moved.p = rec.p.add(self.offset);
                Some(moved)
            },
        }
    }
}

impl RotateY {
    /// A wrapped object rotated about the vertical axis by `angle`, given
    /// in fixed-point degrees. The sine and cosine are fixed at
    /// construction; the box is the axis-aligned extent of the child's
    /// eight rotated corners.
    pub fn from(p: Box<Hittable>, angle: i64) -> (r: RotateY)
        ensures
            r.object == p,
            r.sin_theta as int == crate::trig::sin_deg_s(angle as int),
            r.cos_theta as int == crate::trig::cos_deg_s(angle as int),
            r.bbox == rotate_bbox_s(bbox_s(*p), crate::trig::cos_deg_s(angle as int),
                crate::trig::sin_deg_s(angle as int)),
    {
        let sin_theta = crate::trig::sin_deg(angle);
        let cos_theta = crate::trig::cos_deg(angle);
        let bbox = p.bounding_box();
        let c000 = rot_corner(cos_theta, sin_theta, bbox.x.min, bbox.y.min, bbox.z.min);
        let c001 = rot_corner(cos_theta, sin_theta, bbox.x.min, bbox.y.min, bbox.z.max);
        let c010 = rot_corner(cos_theta, sin_theta, bbox.x.min, bbox.y.max, bbox.z.min);
        let c011 = rot_corner(cos_theta, sin_theta, bbox.x.min, bbox.y.max, bbox.z.max);
        let c100 = rot_corner(cos_theta, sin_theta, bbox.x.max, bbox.y.min, bbox.z.min);
        let c101 = rot_corner(cos_theta, sin_theta, bbox.x.max, bbox.y.min, bbox.z.max);
        let c110 = rot_corner(cos_theta, sin_theta, bbox.x.max, bbox.y.max, bbox.z.min);
        let c111 = rot_corner(cos_theta, sin_theta, bbox.x.max, bbox.y.max, bbox.z.max);
        let rotated = Aabb {
            x: Interval {
                min: min8(c000.x, c001.x, c010.x, c011.x, c100.x, c101.x, c110.x,
                    c111.x),
                max: max8(c000.x, c001.x, c010.x, c011.x, c100.x, c101.x, c110.x,
                    c111.x),
            },
            y: Interval {
                min: min8(c000.y, c001.y, c010.y, c011.y, c100.y, c101.y, c110.y,
                    c111.y),
                max: max8(c000.y, c001.y, c010.y, c011.y, c100.y, c101.y, c110.y,
                    c111.y),
            },
            z: Interval {
                min: min8(c000.z, c001.z, c010.z, c011.z, c100.z, c101.z, c110.z,
                    c111.z),
                max: max8(c000.z, c001.z, c010.z, c011.z, c100.z, c101.z, c110.z,
                    c111.z),
            },
        };
        RotateY { object: p, sin_theta, cos_theta, bbox: rotated }
    }

    /// Query the child along the ray rotated into object space and rotate
    /// the hit point and normal back into world space.
    pub fn hit(&self, r: &Ray, ray_t: Interval, rng: &mut Rng) -> (res: Option<
        HitRecord,
    >)
        requires
            -FMAX <= ray_t.min,
            ray_t.max <= FMAX,
        ensures
            no_random_s(*self.object) ==> res == rotate_hit_s(*self, *r, ray_t),
            res matches Some(rec) ==> contains_s(ray_t, rec.t as int) && -FMAX <= rec.t
                <= FMAX,
        decreases *self,
    {
        let c = self.cos_theta;
        let s = self.sin_theta;
        let origin = Vec3 {
            x: fsub(fmul(c, r.origin.x), fmul(s, r.origin.z)),
            y: r.origin.y,
            z: fadd(fmul(s, r.origin.x), fmul(c, r.origin.z)),
        };
        let direction = Vec3 {
            x: fsub(fmul(c, r.direction.x), fmul(s, r.direction.z)),
            y: r.direction.y,
            z: fadd(fmul(s, r.direction.x), fmul(c, r.direction.z)),
        };
        let rotated_r = Ray::from(origin, direction, r.tm);
        let inner = self.object.hit(&rotated_r, ray_t, rng);
        match inner {
            None => None,
            Some(rec) => {
                let p = Vec3 {
                    x: fadd(fmul(c, rec.p.x), fmul(s, rec.p.z)),
                    y: rec.p.y,
                    z: fadd(fmul(fneg(s), rec.p.x), fmul(c, rec.p.z)),
                };
                let normal = Vec3 {
                    x: fadd(fmul(c, rec.normal.x), fmul(s, rec.normal.z)),
                    y: rec.normal.y,
                    z: fadd(fmul(fneg(s), rec.normal.x), fmul(c, rec.normal.z)),
                };
                let mut out = rec;
                out.p = p;
                out.normal = normal;
                Some(out)
            },
        }
    }
}

/// One corner of a box rotated about the vertical axis.
pub open spec fn rot_corner_s(cos: int, sin: int, x: int, y: int, z: int) -> Vec3 {
    Vec3 {
        x: fadd_s(fmul_s(cos, x), fmul_s(sin, z)) as i64,
        y: y as i64,
        z: fadd_s(fmul_s(fneg_s(sin), x), fmul_s(cos, z)) as i64,
    }
}

/// The smaller of two values.
pub open spec fn min_i(a: int, b: int) -> int {
    if a < b { a } else { b }
}

/// The larger of two values.
pub open spec fn max_i(a: int, b: int) -> int {
    if a > b { a } else { b }
}

/// The smallest component over the eight rotated corners, per axis.
pub open spec fn min8_s(a: int, b: int, c: int, d: int, e: int, f: int, g: int,
    h: int) -> int {
    min_i(min_i(min_i(a, b), min_i(c, d)), min_i(min_i(e, f), min_i(g, h)))
}

/// The largest component over the eight rotated corners, per axis.
pub open spec fn max8_s(a: int, b: int, c: int, d: int, e: int, f: int, g: int,
    h: int) -> int {
    max_i(max_i(max_i(a, b), max_i(c, d)), max_i(max_i(e, f), max_i(g, h)))
}

/// The axis-aligned extent of a box's eight corners after rotation.
pub open spec fn rotate_bbox_s(b: Aabb, cos: int, sin: int) -> Aabb {
    let c000 = rot_corner_s(cos, sin, b.x.min as int, b.y.min as int, b.z.min as int);
    let c001 = rot_corner_s(cos, sin, b.x.min as int, b.y.min as int, b.z.max as int);
    let c010 = rot_corner_s(cos, sin, b.x.min as int, b.y.max as int, b.z.min as int);
    let c011 = rot_corner_s(cos, sin, b.x.min as int, b.y.max as int, b.z.max as int);
    let c100 = rot_corner_s(cos, sin, b.x.max as int, b.y.min as int, b.z.min as int);
    let c101 = rot_corner_s(cos, sin, b.x.max as int, b.y.min as int, b.z.max as int);
    let c110 = rot_corner_s(cos, sin, b.x.max as int, b.y.max as int, b.z.min as int);
    let c111 = rot_corner_s(cos, sin, b.x.max as int, b.y.max as int, b.z.max as int);
    Aabb {
        x: Interval {
            min: min8_s(c000.x as int, c001.x as int, c010.x as int, c011.x as int,
                c100.x as int, c101.x as int, c110.x as int, c111.x as int) as i64,
            max: max8_s(c000.x as int, c001.x as int, c010.x as int, c011.x as int,
                c100.x as int, c101.x as int, c110.x as int, c111.x as int) as i64,
        },
        y: Interval {
            min: min8_s(c000.y as int, c001.y as int, c010.y as int, c011.y as int,
                c100.y as int, c101.y as int, c110.y as int, c111.y as int) as i64,
            max: max8_s(c000.y as int, c001.y as int, c010.y as int, c011.y as int,
                c100.y as int, c101.y as int, c110.y as int, c111.y as int) as i64,
        },
        z: Interval {
            min: min8_s(c000.z as int, c001.z as int, c010.z as int, c011.z as int,
                c100.z as int, c101.z as int, c110.z as int, c111.z as int) as i64,
            max: max8_s(c000.z as int, c001.z as int, c010.z as int, c011.z as int,
                c100.z as int, c101.z as int, c110.z as int, c111.z as int) as i64,
        },
    }
}

/// One corner of a box rotated about the vertical axis.
fn rot_corner(cos: i64, sin: i64, x: i64, y: i64, z: i64) -> (r: Vec3)
    ensures
        r == rot_corner_s(cos as int, sin as int, x as int, y as int, z as int),
{
    Vec3 {
        x: fadd(fmul(cos, x), fmul(sin, z)),
        y,
        z: fadd(fmul(fneg(sin), x), fmul(cos, z)),
    }
}

/// The smallest of eight values.
fn min8(a: i64, b: i64, c: i64, d: i64, e: i64, f: i64, g: i64, h: i64) -> (r: i64)
    ensures
        r as int == min8_s(a as int, b as int, c as int, d as int, e as int, f as int,
            g as int, h as int),
{
    let m1 = crate::fixed::fmin(crate::fixed::fmin(a, b), crate::fixed::fmin(c, d));
    let m2 = crate::fixed::fmin(crate::fixed::fmin(e, f), crate::fixed::fmin(g, h));
    crate::fixed::fmin(m1, m2)
}

/// The largest of eight values.
fn max8(a: i64, b: i64, c: i64, d: i64, e: i64, f: i64, g: i64, h: i64) -> (r: i64)
    ensures
        r as int == max8_s(a as int, b as int, c as int, d as int, e as int, f as int,
            g as int, h as int),
{
    let m1 = crate::fixed::fmax(crate::fixed::fmax(a, b), crate::fixed::fmax(c, d));
    let m2 = crate::fixed::fmax(crate::fixed::fmax(e, f), crate::fixed::fmax(g, h));
    crate::fixed::fmax(m1, m2)
}

/// Round trip of the rigid translation: a translation by an offset wrapped
/// around the translation by its negation answers exactly what the bare
/// object answers, whenever no coordinate saturates. The offsets cancel on
/// the way in (on the ray origin) and on the way out (on the hit point).
pub proof fn lemma_translate_round_trip(outer: Translate, inner: Translate,
    r: Ray, ray_t: Interval)
    requires
        *outer.object == Hittable::Translate(inner),
        inner.offset == (Vec3 {
            x: fneg_s(outer.offset.x as int) as i64,
            y: fneg_s(outer.offset.y as int) as i64,
            z: fneg_s(outer.offset.z as int) as i64,
        }),
        -FMAX <= outer.offset.x <= FMAX,
        -FMAX <= outer.offset.y <= FMAX,
        -FMAX <= outer.offset.z <= FMAX,
        -FMAX <= r.origin.x <= FMAX,
        -FMAX <= r.origin.y <= FMAX,
        -FMAX <= r.origin.z <= FMAX,
        -FMAX <= r.origin.x - outer.offset.x <= FMAX,
        -FMAX <= r.origin.y - outer.offset.y <= FMAX,
        -FMAX <= r.origin.z - outer.offset.z <= FMAX,
        hit_rec_s(*inner.object, r, ray_t) matches Some(rec) ==> {
            &&& -FMAX <= rec.p.x <= FMAX
            &&& -FMAX <= rec.p.y <= FMAX
            &&& -FMAX <= rec.p.z <= FMAX
            &&& -FMAX <= rec.p.x - outer.offset.x <= FMAX
            &&& -FMAX <= rec.p.y - outer.offset.y <= FMAX
            &&& -FMAX <= rec.p.z - outer.offset.z <= FMAX
        },
    ensures
        translate_hit_s(outer, r, ray_t) == hit_rec_s(*inner.object, r, ray_t),
{
    let off = outer.offset;
    let moved1 = Ray { origin: sub_v(r.origin, off), direction: r.direction,
        tm: r.tm };
    let moved2 = Ray { origin: sub_v(moved1.origin, inner.offset),
        direction: moved1.direction, tm: moved1.tm };
    assert(moved2.origin == r.origin);
    assert(moved2 == r);
    assert(hit_rec_s(*outer.object, moved1, ray_t) == translate_hit_s(inner, moved1,
        ray_t));
    match hit_rec_s(*inner.object, r, ray_t) {
        None => {
            assert(translate_hit_s(inner, moved1, ray_t) is None);
            assert(translate_hit_s(outer, r, ray_t) is None);
        },
        Some(rec) => {
            let p1 = add_v(rec.p, inner.offset);
            assert(p1.x as int == rec.p.x - off.x);
            assert(p1.y as int == rec.p.y - off.y);
            assert(p1.z as int == rec.p.z - off.z);
            let rec1 = HitRecord { p: p1, ..rec };
            assert(translate_hit_s(inner, moved1, ray_t) == Some(rec1));
            let p2 = add_v(p1, off);
            assert(p2 == rec.p);
            assert(translate_hit_s(outer, r, ray_t) == Some(HitRecord { p: p2,
                ..rec1 }));
            assert((HitRecord { p: p2, ..rec1 }) == rec);
        },
    }
}

/// A representable vector: every component within the saturation bound.
pub open spec fn rep_v(v: Vec3) -> bool {
    &&& -FMAX <= v.x <= FMAX
    &&& -FMAX <= v.y <= FMAX
    &&& -FMAX <= v.z <= FMAX
}

/// A quarter turn about the vertical axis maps a representable vector
/// exactly: with cosine zero and sine one unit, world-to-object rotation
/// swaps the horizontal axes with one sign flip.
proof fn lemma_quarter_w2o(v: Vec3, sin: int)
    requires
        rep_v(v),
        sin == ONE || sin == -(ONE as int),
    ensures
        sin == ONE ==> rot_w2o_s(0, sin, v) == (Vec3 {
            x: fneg_s(v.z as int) as i64,
            y: v.y,
            z: v.x,
        }),
        sin == -(ONE as int) ==> rot_w2o_s(0, sin, v) == (Vec3 {
            x: v.z,
            y: v.y,
            z: fneg_s(v.x as int) as i64,
        }),
{
    crate::vec3::lemma_fmul_unit(v.x as int);
    crate::vec3::lemma_fmul_unit(v.z as int);
    assert(fmul_s(0, v.x as int) == 0);
    assert(fmul_s(0, v.z as int) == 0);
}

/// The same, for the object-to-world direction.
proof fn lemma_quarter_o2w(v: Vec3, sin: int)
    requires
        rep_v(v),
        sin == ONE || sin == -(ONE as int),
    ensures
        sin == ONE ==> rot_o2w_s(0, sin, v) == (Vec3 {
            x: v.z,
            y: v.y,
            z: fneg_s(v.x as int) as i64,
        }),
        sin == -(ONE as int) ==> rot_o2w_s(0, sin, v) == (Vec3 {
            x: fneg_s(v.z as int) as i64,
            y: v.y,
            z: v.x,
        }),
{
    crate::vec3::lemma_fmul_unit(v.x as int);
    crate::vec3::lemma_fmul_unit(v.z as int);
    assert(fmul_s(0, v.x as int) == 0);
    assert(fmul_s(0, v.z as int) == 0);
    assert(fneg_s(ONE as int) == -(ONE as int));
    assert(fneg_s(-(ONE as int)) == ONE as int);
}

/// Round trip of the quarter-turn rotation: a rotation with cosine zero
/// and sine one unit, wrapped around the rotation with the opposite sine,
/// answers exactly what the bare object answers whenever no coordinate
/// saturates. Quarter turns are the angles at which the fixed-point sine
/// and cosine are exact; at other angles the sine approximation leaves the
/// round trip a tolerance claim rather than an identity.
pub proof fn lemma_rotate_quarter_round_trip(outer: RotateY, inner: RotateY, r: Ray,
    ray_t: Interval)
    requires
        *outer.object == Hittable::RotateY(inner),
        outer.cos_theta == 0,
        outer.sin_theta == ONE,
        inner.cos_theta == 0,
        inner.sin_theta as int == -(ONE as int),
        rep_v(r.origin),
        rep_v(r.direction),
        hit_rec_s(*inner.object, r, ray_t) matches Some(rec) ==> rep_v(rec.p)
            && rep_v(rec.normal),
    ensures
        rotate_hit_s(outer, r, ray_t) == hit_rec_s(*inner.object, r, ray_t),
{
    let half = rot_w2o_s(0, ONE as int, r.origin);
    let half_d = rot_w2o_s(0, ONE as int, r.direction);
    lemma_quarter_w2o(r.origin, ONE as int);
    lemma_quarter_w2o(r.direction, ONE as int);
    assert(rep_v(half));
    assert(rep_v(half_d));
    lemma_quarter_w2o(half, -(ONE as int));
    lemma_quarter_w2o(half_d, -(ONE as int));
    let once = Ray { origin: half, direction: half_d, tm: r.tm };
    let twice = Ray {
        origin: rot_w2o_s(0, -(ONE as int), half),
        direction: rot_w2o_s(0, -(ONE as int), half_d),
        tm: r.tm,
    };
    assert(twice.origin == r.origin);
    assert(twice.direction == r.direction);
    assert(twice == r);
    assert(hit_rec_s(*outer.object, once, ray_t) == rotate_hit_s(inner, once, ray_t));
    match hit_rec_s(*inner.object, r, ray_t) {
        None => {
            assert(rotate_hit_s(inner, once, ray_t) is None);
            assert(rotate_hit_s(outer, r, ray_t) is None);
        },
        Some(rec) => {
            lemma_quarter_o2w(rec.p, -(ONE as int));
            lemma_quarter_o2w(rec.normal, -(ONE as int));
            let p1 = rot_o2w_s(0, -(ONE as int), rec.p);
            let n1 = rot_o2w_s(0, -(ONE as int), rec.normal);
            let rec1 = HitRecord { p: p1, normal: n1, ..rec };
            assert(rotate_hit_s(inner, once, ray_t) == Some(rec1));
            assert(rep_v(p1));
            assert(rep_v(n1));
            lemma_quarter_o2w(p1, ONE as int);
            lemma_quarter_o2w(n1, ONE as int);
            let p2 = rot_o2w_s(0, ONE as int, p1);
            let n2 = rot_o2w_s(0, ONE as int, n1);
            assert(p2 == rec.p);
            assert(n2 == rec.normal);
            assert(rotate_hit_s(outer, r, ray_t) == Some(HitRecord { p: p2, normal: n2,
                ..rec1 }));
            assert((HitRecord { p: p2, normal: n2, ..rec1 }) == rec);
        },
    }
}

} // verus!
