//! A homogeneous participating medium bounded by another hittable: a ray
//! scatters somewhere inside the boundary after an exponentially sampled
//! free path, or passes through.

use vstd::prelude::*;
use crate::fixed::{fadd, fadd_s, fdiv, fdiv_s, fmul, fmul_s, fneg, fneg_s, fsub,
    fsub_s, FMAX, ONE};
use crate::hittable::{hit_rec_s, no_random_s, HitRecord, Hittable};
use crate::interval::{contains_s, Interval, INF, NEG_INF};
use crate::material::{Isotropic, Material};
use crate::ray::Ray;
use crate::rng::Rng;
use crate::rtweekend::random_double;
use crate::texture::{SolidColor, Texture};
use crate::ray::at_s;
use crate::vec3::{length_v, Color, Vec3};

verus! {

/// The nudge past an entry hit when probing for the exit hit.
pub const REENTRY_NUDGE: i64 = 1;

/// Cap on the sampled negative logarithm, standing in for an unbounded
/// free path on a zero draw.
pub const LN_CAP: i64 = 1572864;

/// One natural logarithm of two, in fixed point.
pub const LN2_F: i64 = 45426;

#[derive(Debug)]
pub struct ConstantMedium {
    pub boundaries: Box<Hittable>,
    pub neg_inv_density: i64,
    pub phase_function: usize,
}

/// The medium's answer as a function of the sampled negative logarithm
/// `nl` (the one random input): probe the boundary for entry and exit,
/// clip both to the query interval and to the ray's forward half, refuse
/// an empty corridor, and scatter after the exponential free path when it
/// fits inside; the scatter point has no surface, so the record carries a
/// zero normal, a true front face, and the phase function's material.
pub open spec fn medium_hit_s(m: ConstantMedium, r: Ray, ray_t: Interval, nl: int)
    -> Option<HitRecord> {
    match hit_rec_s(*m.boundaries, r, Interval { min: NEG_INF, max: INF }) {
        None => None,
        Some(rec1) => match hit_rec_s(*m.boundaries, r, Interval {
            min: fadd_s(rec1.t as int, REENTRY_NUDGE as int) as i64,
            max: INF,
        }) {
            None => None,
            Some(rec2) => {
                let t1a: i64 = if rec1.t < ray_t.min { ray_t.min } else { rec1.t };
                let t2: i64 = if rec2.t > ray_t.max { ray_t.max } else { rec2.t };
                if t1a >= t2 {
                    None
                } else {
                    let t1: i64 = if t1a <= 0 { 0i64 } else { t1a };
                    if t1 >= t2 {
                        None
                    } else {
                        let len = length_v(r.direction);
                        let dist = fmul_s(fsub_s(t2 as int, t1 as int), len);
                        let hd = fmul_s(fneg_s(m.neg_inv_density as int), nl);
                        if hd < 0 || hd > dist {
                            None
                        } else {
                            let t = fadd_s(t1 as int, fdiv_s(hd, len)) as i64;
                            Some(HitRecord {
                                p: at_s(r, t as int),
                                normal: Vec3 { x: 0i64, y: 0i64, z: 0i64 },
                                mat: m.phase_function,
                                t,
                                u: 0i64,
                                v: 0i64,
                                front_face: true,
                            })
                        }
                    }
                }
            },
        },
    }
}

impl ConstantMedium {
    /// A medium bounded by `boundaries` with the given density, whose
    /// phase function is an isotropic material over the given texture,
    /// appended to the material arena.
    pub fn from_texture(boundaries: Box<Hittable>, density: i64, texture: Texture,
        materials: &mut Vec<Material>) -> (r: ConstantMedium)
        ensures
            r.boundaries == boundaries,
            r.neg_inv_density as int == fdiv_s(-(ONE as int), density as int),
            r.phase_function == old(materials)@.len(),
            final(materials)@ == old(materials)@.push(Material::Isotropic(Isotropic {
                albedo: texture,
            })),
    {
        let phase_function = materials.len();
        materials.push(Material::Isotropic(Isotropic { albedo: texture }));
        ConstantMedium {
            boundaries,
            neg_inv_density: fdiv(fneg(ONE), density),
            phase_function,
        }
    }

    /// A medium whose phase function scatters a solid color.
    pub fn from_color(boundaries: Box<Hittable>, density: i64, color: Color,
        materials: &mut Vec<Material>) -> (r: ConstantMedium)
        ensures
            r.boundaries == boundaries,
            r.neg_inv_density as int == fdiv_s(-(ONE as int), density as int),
            r.phase_function == old(materials)@.len(),
            final(materials)@ == old(materials)@.push(Material::Isotropic(Isotropic {
                albedo: Texture::Solid(SolidColor { color_value: color }),
            })),
    {
        let phase_function = materials.len();
        materials.push(Material::Isotropic(Isotropic {
            albedo: Texture::Solid(SolidColor::from_color(color)),
        }));
        ConstantMedium {
            boundaries,
            neg_inv_density: fdiv(fneg(ONE), density),
            phase_function,
        }
    }

    /// Find where the ray enters and leaves the boundary, clip both to the
    /// query interval, and scatter after an exponentially sampled distance
    /// when it falls inside; the scatter point has no surface, so the
    /// record carries a zero normal and the phase function's material.
    /// When the boundary itself is free of randomness, the whole answer is
    /// pinned as a function of the one sampled value, so in particular a
    /// boundary miss or an empty clipped corridor always answers no-hit.
    pub fn hit(&self, r: &Ray, ray_t: Interval, rng: &mut Rng) -> (res: Option<
        HitRecord,
    >)
        requires
            -FMAX <= ray_t.min,
            ray_t.max <= FMAX,
        ensures
            res matches Some(rec) ==> contains_s(ray_t, rec.t as int) && -FMAX <= rec.t
                <= FMAX,
            no_random_s(*self.boundaries) ==> exists|nl: int|
                0 <= nl <= LN_CAP && res == medium_hit_s(*self, *r, ray_t, nl),
            no_random_s(*self.boundaries) && hit_rec_s(*self.boundaries, *r, Interval {
                min: NEG_INF,
                max: INF,
            }) is None ==> res is None,
        decreases *self,
    {
        let ghost pure = no_random_s(*self.boundaries);
        let rec1 = match self.boundaries.hit(r, Interval::universe(), rng) {
            None => {
                proof {
                    if pure {
                        assert(medium_hit_s(*self, *r, ray_t, 0) is None);
                    }
                }
                return None;
            },
            Some(rec) => rec,
        };
        let rec2 = match self.boundaries.hit(r, Interval {
            min: fadd(rec1.t, REENTRY_NUDGE),
            max: INF,
        }, rng) {
            None => {
                proof {
                    if pure {
                        assert(medium_hit_s(*self, *r, ray_t, 0) is None);
                    }
                }
                return None;
            },
            Some(rec) => rec,
        };

        let mut t1 = rec1.t;
        let mut t2 = rec2.t;
        if t1 < ray_t.min {
            t1 = ray_t.min;
        }
        if t2 > ray_t.max {
            t2 = ray_t.max;
        }
        if t1 >= t2 {
            proof {
                if pure {
                    assert(medium_hit_s(*self, *r, ray_t, 0) is None);
                }
            }
            return None;
        }
        if t1 <= 0 {
            t1 = 0;
        }
        if t1 >= t2 {
            proof {
                if pure {
                    assert(medium_hit_s(*self, *r, ray_t, 0) is None);
                }
            }
            return None;
        }

        let ray_length = r.direction.length();
        let distance_inside = fmul(fsub(t2, t1), ray_length);
        let draw = random_double(rng);
        let nl = neg_ln_unit(draw);
        let hit_distance = fmul(fneg(self.neg_inv_density), nl);
        if hit_distance < 0 {
            proof {
                if pure {
                    assert(medium_hit_s(*self, *r, ray_t, nl as int) is None);
                }
            }
            return None;
        }
        if hit_distance > distance_inside {
            proof {
                if pure {
                    assert(medium_hit_s(*self, *r, ray_t, nl as int) is None);
                }
            }
            return None;
        }

        let dt = fdiv(hit_distance, ray_length);
        proof {
            lemma_free_path_in_range(t1 as int, t2 as int, ray_length as int,
                hit_distance as int);
        }
        let t = fadd(t1, dt);
        let p = r.at(t);
        let out = HitRecord {
            p,
            normal: Vec3 { x: 0, y: 0, z: 0 },
            mat: self.phase_function,
            t,
            u: 0,
            v: 0,
            front_face: true,
        };
        proof {
            if pure {
                assert(Some(out) == medium_hit_s(*self, *r, ray_t, nl as int));
            }
        }
        Some(out)
    }
}

/// A sampled distance no longer than what fits inside the boundary moves
/// the parameter at most from the entry to the exit.
proof fn lemma_free_path_in_range(t1: int, t2: int, len: int, hd: int)
    requires
        t1 < t2,
        -FMAX <= t1,
        t2 <= FMAX,
        0 <= len,
        0 <= hd,
        hd <= crate::fixed::fmul_s(crate::fixed::fsub_s(t2, t1), len),
    ensures
        0 <= fdiv_s(hd, len),
        t1 + fdiv_s(hd, len) <= t2,
{
    let delta = crate::fixed::fsub_s(t2, t1);
    assert(0 < delta <= t2 - t1);
    if len == 0 {
        assert(crate::fixed::fmul_s(delta, 0) == 0) by {
            vstd::arithmetic::div_mod::lemma_div_multiples_vanish(0,
                crate::fixed::SCALE as int);
            vstd::arithmetic::mul::lemma_mul_basics(delta);
        }
    } else {
        let q = crate::fixed::floor_div(hd * crate::fixed::SCALE as int, len);
        vstd::arithmetic::div_mod::lemma_div_pos_is_pos(hd * crate::fixed::SCALE as int,
            len);
        vstd::arithmetic::mul::lemma_mul_nonnegative(hd, crate::fixed::SCALE as int);
        let prod = delta * len;
        vstd::arithmetic::mul::lemma_mul_nonnegative(delta, len);
        vstd::arithmetic::div_mod::lemma_div_nonincreasing(prod,
            crate::fixed::SCALE as int);
        assert(hd <= prod / crate::fixed::SCALE as int);
        assert(hd * crate::fixed::SCALE as int <= (prod / crate::fixed::SCALE as int)
            * crate::fixed::SCALE as int) by {
            vstd::arithmetic::mul::lemma_mul_inequality(hd,
                prod / crate::fixed::SCALE as int, crate::fixed::SCALE as int);
        }
        assert((prod / crate::fixed::SCALE as int) * crate::fixed::SCALE as int
            <= prod) by {
            vstd::arithmetic::div_mod::lemma_fundamental_div_mod(prod,
                crate::fixed::SCALE as int);
            vstd::arithmetic::div_mod::lemma_mod_bound(prod, crate::fixed::SCALE as int);
            vstd::arithmetic::mul::lemma_mul_is_commutative(
                prod / crate::fixed::SCALE as int, crate::fixed::SCALE as int);
        }
        vstd::arithmetic::div_mod::lemma_div_is_ordered(hd * crate::fixed::SCALE as int,
            prod, len);
        vstd::arithmetic::div_mod::lemma_div_multiples_vanish(delta, len);
        vstd::arithmetic::mul::lemma_mul_is_commutative(delta, len);
    }
}

/// The negative natural logarithm of a unit draw, approximated by binary
/// normalization and a short series: nonnegative, zero at or above one
/// unit, and capped on a zero draw.
pub fn neg_ln_unit(u: i64) -> (r: i64)
    requires
        0 <= u,
    ensures
        0 <= r <= LN_CAP,
        u >= ONE ==> r == 0,
{
    if u == 0 {
        return LN_CAP;
    }
    if u >= ONE {
        return 0;
    }
    let mut m = u;
    let mut k: i64 = 0;
    while m < 32768
        invariant
            1 <= m <= 65535,
            0 <= k <= m,
        decreases 65536 - m,
    {
        m = m * 2;
        k = k + 1;
    }
    let t = fsub(ONE, m);
    let t2 = fmul(fmul(t, t), 32768);
    let t3 = fdiv3(fmul(fmul(t, t), t));
    let t4 = fmul(fmul(fmul(fmul(t, t), t), t), 16384);
    let series = fadd(fadd(t, t2), fadd(t3, t4));
    let scaled = k * LN2_F;
    let total = fadd(scaled, series);
    if total < 0 {
        0
    } else if total > LN_CAP {
        LN_CAP
    } else {
        total
    }
}

/// Division of a fixed value by three, toward negative infinity.
fn fdiv3(x: i64) -> (r: i64)
    ensures
        r as int == crate::fixed::floor_div(x as int, 3),
{
    let q = crate::fixed::idiv_floor(x as i128, 3);
    proof {
        vstd::arithmetic::div_mod::lemma_fundamental_div_mod(x as int, 3);
        vstd::arithmetic::div_mod::lemma_mod_bound(x as int, 3);
    }
    q as i64
}

} // verus!
