//! An unordered aggregate of hittables: a linear scan that only ever
//! accepts a strictly closer hit, which gives nearest-hit semantics
//! independent of member order.

use vstd::prelude::*;
use crate::aabb::{union_b, Aabb};
use crate::fixed::FMAX;
use crate::hittable::{bbox_s, hit_rec_s, list_hit_s, no_random_s, no_random_seq_s,
    HitRecord, Hittable};
use crate::interval::{contains_s, Interval};
use crate::ray::Ray;
use crate::rng::Rng;

verus! {

#[derive(Debug)]
pub struct HittableList {
    pub objects: Vec<Hittable>,
    pub bbox: Aabb,
}

/// The second result when it is a hit, the first otherwise: how a closer
/// candidate replaces the best hit found so far.
pub open spec fn combine_s(a: Option<HitRecord>, b: Option<HitRecord>) -> Option<
    HitRecord,
> {
    match b {
        Some(_) => b,
        None => a,
    }
}

impl HittableList {
    /// An empty aggregate with an empty box.
    pub fn new() -> (r: HittableList)
        ensures
            r.objects@ == Seq::<Hittable>::empty(),
            r.bbox == (Aabb {
                x: Interval { min: crate::interval::INF, max: crate::interval::NEG_INF },
                y: Interval { min: crate::interval::INF, max: crate::interval::NEG_INF },
                z: Interval { min: crate::interval::INF, max: crate::interval::NEG_INF },
            }),
    {
        let r = HittableList { objects: Vec::new(), bbox: Aabb::new() };
        proof {
            assert(r.objects@ =~= Seq::<Hittable>::empty());
        }
        r
    }

    /// An aggregate holding one object; its box is that object's box.
    pub fn from(object: Hittable) -> (r: HittableList)
        ensures
            r.objects@ =~= seq![object],
            r.bbox == bbox_s(object),
    {
        let bbox = object.bounding_box();
        let mut objects: Vec<Hittable> = Vec::new();
        objects.push(object);
        HittableList { objects, bbox }
    }

    /// Append an object; the box grows by the union with its box.
    pub fn add(&mut self, object: Hittable)
        ensures
            final(self).objects@ == old(self).objects@.push(object),
            final(self).bbox == union_b(old(self).bbox, bbox_s(object)),
    {
        self.bbox = Aabb::from_bbox(self.bbox, object.bounding_box());
        self.objects.push(object);
    }

    /// Remove every member; the box shrinks back to empty.
    pub fn clear(&mut self)
        ensures
            final(self).objects@ == Seq::<Hittable>::empty(),
            final(self).bbox == (Aabb {
                x: Interval { min: crate::interval::INF, max: crate::interval::NEG_INF },
                y: Interval { min: crate::interval::INF, max: crate::interval::NEG_INF },
                z: Interval { min: crate::interval::INF, max: crate::interval::NEG_INF },
            }),
    {
        self.objects.clear();
        self.bbox = Aabb::new();
        proof {
            assert(self.objects@ =~= Seq::<Hittable>::empty());
        }
    }

    /// Scan every member, keeping the nearest hit: each member is queried
    /// with the upper bound tightened to the best hit so far, so only a
    /// strictly closer hit replaces it.
    pub fn hit(&self, r: &Ray, ray_t: Interval, rng: &mut Rng) -> (res: Option<
        HitRecord,
    >)
        requires
            -FMAX <= ray_t.min,
            ray_t.max <= FMAX,
        ensures
            no_random_seq_s(self.objects@) ==> res == list_hit_s(self.objects@, *r,
                ray_t),
            res matches Some(rec) ==> contains_s(ray_t, rec.t as int) && -FMAX <= rec.t
                <= FMAX,
        decreases *self,
    {
        let ghost pure = no_random_seq_s(self.objects@);
        let mut best: Option<HitRecord> = None;
        let mut closest: i64 = ray_t.max;
        let n = self.objects.len();
        let mut i: usize = 0;
        proof {
            assert(self.objects@.subrange(0, n as int) =~= self.objects@);
            assert((Interval { min: ray_t.min, max: ray_t.max }) == ray_t);
        }
        while i < n
            invariant
                n == self.objects@.len(),
                0 <= i <= n,
                -FMAX <= ray_t.min,
                ray_t.max <= FMAX,
                closest <= ray_t.max,
                closest <= FMAX,
                pure == no_random_seq_s(self.objects@),
                match best {
                    Some(b) => b.t == closest && contains_s(ray_t, b.t as int)
                        && -FMAX <= b.t <= FMAX,
                    None => closest == ray_t.max,
                },
                pure ==> list_hit_s(self.objects@, *r, ray_t) == combine_s(best,
                    list_hit_s(self.objects@.subrange(i as int, n as int), *r, Interval {
                        min: ray_t.min,
                        max: closest,
                    })),
            decreases n - i,
        {
            let ghost rest = self.objects@.subrange(i as int, n as int);
            let ghost sub_itv = Interval { min: ray_t.min, max: closest };
            proof {
                assert(rest.len() > 0);
                assert(rest[0] == self.objects@[i as int]);
                assert(rest.drop_first() =~= self.objects@.subrange(i as int + 1,
                    n as int));
                assert(decreases_to!(*self => self.objects));
                assert(decreases_to!(self.objects => self.objects@));
                assert(decreases_to!(self.objects@ => self.objects@[i as int]));
                if pure {
                    assert(no_random_s(self.objects@[i as int]));
                }
            }
            let h = self.objects[i].hit(r, Interval { min: ray_t.min, max: closest },
                rng);
            proof {
                if pure {
                    assert(h == hit_rec_s(rest[0], *r, sub_itv));
                    assert(list_hit_s(rest, *r, sub_itv) == match hit_rec_s(rest[0], *r,
                        sub_itv) {
                        None => list_hit_s(rest.drop_first(), *r, sub_itv),
                        Some(rec) => match list_hit_s(rest.drop_first(), *r, Interval {
                            min: sub_itv.min,
                            max: rec.t,
                        }) {
                            None => Some(rec),
                            Some(r2) => Some(r2),
                        },
                    });
                }
            }
            match h {
                None => {},
                Some(rec) => {
                    best = Some(rec);
                    closest = rec.t;
                },
            }
            i += 1;
        }
        proof {
            if pure {
                assert(self.objects@.subrange(i as int, n as int)
                    =~= Seq::<Hittable>::empty());
                assert(list_hit_s(self.objects@.subrange(i as int, n as int), *r,
                    Interval { min: ray_t.min, max: closest }) is None);
            }
        }
        best
    }
}

} // verus!
