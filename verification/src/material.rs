//! Surface materials: each consumes a hit and either refuses to scatter
//! or produces a continuation ray with an attenuation color. A closed set
//! of variants dispatched by pattern match.

use vstd::prelude::*;
use crate::fixed::{fadd_s, fdiv, fdiv_s, fmul, fmul_s, fneg, fsqrt, fsqrt_s, fsub,
    fsub_s, ONE};
use crate::hittable::HitRecord;
use crate::ray::Ray;
use crate::rng::Rng;
use crate::rtweekend::random_double;
use crate::texture::{tex_value_s, tex_wf, SolidColor, Texture};
use crate::vec3::{add_v, dot_v, reflect_v, refract_v, scale_v, unit_sample_s, unit_v,
    Color, Point3, Vec3};

verus! {

#[derive(Debug)]
pub struct Lambertian {
    pub albedo: Texture,
}

#[derive(Debug)]
pub struct Metal {
    pub albedo: Color,
    pub fuzz: i64,
}

#[derive(Debug)]
pub struct Dielectric {
    pub ir: i64,
}

#[derive(Debug)]
pub struct DiffuseLight {
    pub emit: Texture,
}

#[derive(Debug)]
pub struct Isotropic {
    pub albedo: Texture,
}

#[derive(Debug)]
pub enum Material {
    Lambertian(Lambertian),
    Metal(Metal),
    Dielectric(Dielectric),
    DiffuseLight(DiffuseLight),
    Isotropic(Isotropic),
}

/// The diffuse continuation direction: the normal nudged by a random unit
/// vector, falling back to the bare normal when the sum vanishes.
pub open spec fn lambertian_dir_s(n: Vec3, d: Vec3) -> Vec3 {
    let sd = add_v(n, d);
    if sd == (Vec3 { x: 0i64, y: 0i64, z: 0i64 }) {
        n
    } else {
        sd
    }
}

/// The metallic continuation direction: the mirror reflection perturbed by
/// a random unit vector scaled by the fuzz.
pub open spec fn metal_dir_s(incoming: Vec3, n: Vec3, d: Vec3, fuzz: int) -> Vec3 {
    add_v(reflect_v(unit_v(incoming), n), scale_v(d, fuzz))
}

/// The cosine the dielectric model sees at the hit.
pub open spec fn diel_cos_s(ud: Vec3, n: Vec3) -> int {
    let d = dot_v(ud, n);
    -(if d < ONE as int { d } else { ONE as int })
}

/// Whether total internal reflection is forced at this incidence.
pub open spec fn diel_cannot_refract_s(ud: Vec3, n: Vec3, ratio: int) -> int {
    let cos_theta = diel_cos_s(ud, n);
    let sin_theta = fsqrt_s(fsub_s(ONE as int, fmul_s(cos_theta, cos_theta)));
    fmul_s(ratio, sin_theta)
}

/// Schlick's reflectance approximation.
pub open spec fn reflectance_s(cosine: int, ref_idx: int) -> int {
    let r0 = fdiv_s(fsub_s(ONE as int, ref_idx), fadd_s(ONE as int, ref_idx));
    let r0sq = fmul_s(r0, r0);
    let b = fsub_s(ONE as int, cosine);
    let b5 = fmul_s(fmul_s(fmul_s(fmul_s(b, b), b), b), b);
    fadd_s(r0sq, fmul_s(fsub_s(ONE as int, r0sq), b5))
}

/// The refraction ratio at a hit: reciprocal of the index when the ray
/// enters from outside, the index itself when it leaves.
pub open spec fn diel_ratio_s(ir: int, front_face: bool) -> int {
    if front_face {
        fdiv_s(ONE as int, ir)
    } else {
        ir
    }
}

/// What a material emits: black, except for a diffuse light.
pub open spec fn emitted_s(m: Material, u: int, v: int, p: Vec3) -> Color {
    match m {
        Material::DiffuseLight(dl) => tex_value_s(dl.emit, u, v, p),
        _ => Vec3 { x: 0i64, y: 0i64, z: 0i64 },
    }
}

/// Every texture owned by the material is well formed.
pub open spec fn mat_wf(m: Material) -> bool {
    match m {
        Material::Lambertian(l) => tex_wf(l.albedo),
        Material::Metal(_) => true,
        Material::Dielectric(_) => true,
        Material::DiffuseLight(dl) => tex_wf(dl.emit),
        Material::Isotropic(i) => tex_wf(i.albedo),
    }
}

impl Lambertian {
    pub fn from_color(albedo: Color) -> (r: Lambertian)
        ensures
            r.albedo == (Texture::Solid(SolidColor { color_value: albedo })),
    {
        Lambertian { albedo: Texture::Solid(SolidColor::from_color(albedo)) }
    }

    pub fn from_texture(a: Texture) -> (r: Lambertian)
        ensures
            r.albedo == a,
    {
        Lambertian { albedo: a }
    }
}

impl Metal {
    /// The fuzz is clamped to one unit.
    pub fn new(albedo: Color, fuzz: i64) -> (r: Metal)
        ensures
            r.albedo == albedo,
            r.fuzz == if fuzz < ONE { fuzz } else { ONE },
    {
        Metal { albedo, fuzz: if fuzz < ONE { fuzz } else { ONE } }
    }
}

impl Dielectric {
    pub fn new(ir: i64) -> (r: Dielectric)
        ensures
            r.ir == ir,
    {
        Dielectric { ir }
    }
}

impl DiffuseLight {
    pub fn from_color(c: Color) -> (r: DiffuseLight)
        ensures
            r.emit == (Texture::Solid(SolidColor { color_value: c })),
    {
        DiffuseLight { emit: Texture::Solid(SolidColor::from_color(c)) }
    }

    pub fn from_texture(t: Texture) -> (r: DiffuseLight)
        ensures
            r.emit == t,
    {
        DiffuseLight { emit: t }
    }
}

impl Isotropic {
    pub fn from_color(c: Color) -> (r: Isotropic)
        ensures
            r.albedo == (Texture::Solid(SolidColor { color_value: c })),
    {
        Isotropic { albedo: Texture::Solid(SolidColor::from_color(c)) }
    }

    pub fn from_texture(t: Texture) -> (r: Isotropic)
        ensures
            r.albedo == t,
    {
        Isotropic { albedo: t }
    }
}

/// Schlick's reflectance approximation.
pub fn reflectance(cosine: i64, ref_idx: i64) -> (r: i64)
    ensures
        r as int == reflectance_s(cosine as int, ref_idx as int),
{
    let r0 = fdiv(fsub(ONE, ref_idx), crate::fixed::fadd(ONE, ref_idx));
    let r0sq = fmul(r0, r0);
    let b = fsub(ONE, cosine);
    let b5 = fmul(fmul(fmul(fmul(b, b), b), b), b);
    crate::fixed::fadd(r0sq, fmul(fsub(ONE, r0sq), b5))
}

impl Material {
    /// How the material answers a hit: a scattered ray and an attenuation
    /// color, or nothing when the ray is absorbed. Random choices are
    /// pinned only up to the drawn vector; everything else is exact.
    pub fn scatter(&self, rng: &mut Rng, r_in: &Ray, rec: &HitRecord) -> (res: Option<
        (Color, Ray),
    >)
        requires
            mat_wf(*self),
        ensures
            self matches Material::Lambertian(l) ==> (res matches Some((att, sc))
                && att == tex_value_s(l.albedo, rec.u as int, rec.v as int, rec.p)
                && sc.origin == rec.p && sc.tm == r_in.tm
                && exists|d: Vec3| unit_sample_s(d) && sc.direction
                    == #[trigger] lambertian_dir_s(rec.normal, d)),
            self matches Material::Metal(m) ==> match res {
                Some((att, sc)) => att == m.albedo && sc.origin == rec.p
                    && sc.tm == r_in.tm && dot_v(sc.direction, rec.normal) > 0
                    && exists|d: Vec3| unit_sample_s(d) && sc.direction
                        == #[trigger] metal_dir_s(r_in.direction, rec.normal, d,
                        m.fuzz as int),
                None => true,
            },
            self matches Material::Metal(m) && m.fuzz == 0
                && dot_v(reflect_v(unit_v(r_in.direction), rec.normal), rec.normal)
                    > 0 ==> res is Some,
            self matches Material::Dielectric(di) ==> (res matches Some((att, sc))
                && att == (Vec3 { x: ONE, y: ONE, z: ONE }) && sc.origin == rec.p
                && sc.tm == r_in.tm
                && (sc.direction == reflect_v(unit_v(r_in.direction), rec.normal)
                    || sc.direction == refract_v(unit_v(r_in.direction), rec.normal,
                        diel_ratio_s(di.ir as int, rec.front_face)))
                && (diel_cannot_refract_s(unit_v(r_in.direction), rec.normal,
                        diel_ratio_s(di.ir as int, rec.front_face)) > ONE
                    ==> sc.direction == reflect_v(unit_v(r_in.direction), rec.normal))),
            self matches Material::DiffuseLight(_) ==> res is None,
            self matches Material::Isotropic(i) ==> (res matches Some((att, sc))
                && att == tex_value_s(i.albedo, rec.u as int, rec.v as int, rec.p)
                && sc.origin == rec.p && sc.tm == r_in.tm
                && unit_sample_s(sc.direction)),
    {
        match self {
            Material::Lambertian(l) => {
                let d = Vec3::random_unit_vector(rng);
                let sd = rec.normal.add(d);
                let scatter_direction = if sd.near_zero() {
                    rec.normal
                } else {
                    sd
                };
                proof {
                    assert(scatter_direction == lambertian_dir_s(rec.normal, d));
                }
                let scattered = Ray::from(rec.p, scatter_direction, r_in.tm);
                let attenuation = l.albedo.value(rec.u, rec.v, &rec.p);
                Some((attenuation, scattered))
            },
            Material::Metal(m) => {
                let reflected = r_in.direction.unit_vector().reflect(&rec.normal);
                let d = Vec3::random_unit_vector(rng);
                let dir = reflected.add(d.mul_scalar(m.fuzz));
                proof {
                    assert(dir == metal_dir_s(r_in.direction, rec.normal, d,
                        m.fuzz as int));
                    if m.fuzz == 0 {
                        assert(scale_v(d, 0) == (Vec3 { x: 0i64, y: 0i64, z: 0i64 }));
                        assert(dir == reflected);
                    }
                }
                let scattered = Ray::from(rec.p, dir, r_in.tm);
                if scattered.direction.dot(rec.normal) > 0 {
                    Some((m.albedo, scattered))
                } else {
                    None
                }
            },
            Material::Dielectric(di) => {
                let attenuation = Vec3::ones();
                let refraction_ratio = if rec.front_face {
                    fdiv(ONE, di.ir)
                } else {
                    di.ir
                };
                let unit_direction = r_in.direction.unit_vector();
                let dcos = unit_direction.dot(rec.normal);
                let m = if dcos < ONE {
                    dcos
                } else {
                    ONE
                };
                let cos_theta = fneg(m);
                let sin_theta = fsqrt(fsub(ONE, fmul(cos_theta, cos_theta)));
                let cannot_refract = fmul(refraction_ratio, sin_theta) > ONE;
                let draw = random_double(rng);
                let direction = if cannot_refract
                    || reflectance(cos_theta, refraction_ratio) > draw {
                    unit_direction.reflect(&rec.normal)
                } else {
                    unit_direction.refract(&rec.normal, refraction_ratio)
                };
                let scattered = Ray::from(rec.p, direction, r_in.tm);
                Some((attenuation, scattered))
            },
            Material::DiffuseLight(_) => None,
            Material::Isotropic(i) => {
                let dir = Vec3::random_unit_vector(rng);
                let scattered = Ray::from(rec.p, dir, r_in.tm);
                let attenuation = i.albedo.value(rec.u, rec.v, &rec.p);
                Some((attenuation, scattered))
            },
        }
    }

    /// What the material emits on its own: black, except for a diffuse
    /// light, which answers its texture regardless of geometry.
    pub fn emitted(&self, u: i64, v: i64, p: &Point3) -> (r: Color)
        requires
            mat_wf(*self),
        ensures
            r == emitted_s(*self, u as int, v as int, *p),
    {
        match self {
            Material::DiffuseLight(dl) => dl.emit.value(u, v, p),
            _ => Vec3::zeros(),
        }
    }
}

/// At a unit refraction index the refraction ratio is exactly one unit and
/// total internal reflection is never forced, whatever the incidence: the
/// boundary bends nothing.
pub proof fn lemma_unit_index_never_locks_reflection(ud: Vec3, n: Vec3)
    ensures
        fdiv_s(ONE as int, ONE as int) == ONE,
        diel_cannot_refract_s(ud, n, ONE as int) <= ONE,
{
    vstd::arithmetic::div_mod::lemma_div_multiples_vanish(crate::fixed::SCALE as int,
        crate::fixed::SCALE as int);
    let cos_theta = diel_cos_s(ud, n);
    let csq = fmul_s(cos_theta, cos_theta);
    assert(cos_theta * cos_theta >= 0) by (nonlinear_arith);
    vstd::arithmetic::div_mod::lemma_div_pos_is_pos(cos_theta * cos_theta,
        crate::fixed::SCALE as int);
    assert(csq >= 0);
    let arg = fsub_s(ONE as int, csq);
    assert(arg <= ONE);
    crate::fixed::lemma_fsqrt_in_unit(arg);
    let sin_theta = crate::fixed::fsqrt_s(arg);
    crate::vec3::lemma_fmul_unit(sin_theta);
}

} // verus!
