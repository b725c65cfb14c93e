use raycore::fixed::{fabs, fadd, fdiv, fmul, fneg, fsqrt, fsub, FMAX, ONE};
use raycore::perlin::Perlin;
use raycore::texture::NoiseTexture;
use raycore::hittable::HitRecord;
use raycore::material::{reflectance, Dielectric, DiffuseLight, Isotropic, Lambertian,
    Material, Metal};
use raycore::ray::Ray;
use raycore::rng::Rng;
use raycore::rtweekend::{degrees2radians, random_double, random_double_interval,
    random_int};
use raycore::texture::{CheckerTexture, ImageTexture, SolidColor, Texture};
use raycore::trig::{acos_f, atan2_f, cos_deg, sin_deg, HALF_PI, PI_F};
use raycore::vec3::Vec3;

fn v(x: i64, y: i64, z: i64) -> Vec3 {
    Vec3::from(x, y, z)
}

#[test]
fn fixed_arithmetic_exact_values() {
    assert_eq!(fmul(ONE, ONE), ONE);
    assert_eq!(fmul(3 * ONE / 2, 2 * ONE), 3 * ONE);
    assert_eq!(fmul(-ONE, ONE), -ONE);
    assert_eq!(fdiv(ONE, 2 * ONE), ONE / 2);
    assert_eq!(fdiv(3 * ONE, -ONE), -3 * ONE);
    assert_eq!(fsqrt(4 * ONE), 2 * ONE);
    assert_eq!(fsqrt(ONE / 4), ONE / 2);
    assert_eq!(fsub(5, 9), -4);
    assert_eq!(fneg(-7), 7);
    assert_eq!(fabs(-3 * ONE), 3 * ONE);
}

#[test]
fn fixed_arithmetic_saturates_instead_of_overflowing() {
    assert_eq!(fadd(FMAX, FMAX), FMAX);
    assert_eq!(fsub(-FMAX, FMAX), -FMAX);
    assert_eq!(fmul(FMAX, FMAX), FMAX);
    assert_eq!(fdiv(ONE, 0), FMAX);
    assert_eq!(fdiv(-ONE, 0), -FMAX);
    assert_eq!(fdiv(0, 0), 0);
    assert_eq!(fsqrt(-ONE), 0);
}

#[test]
fn vector_algebra_exact_values() {
    let a = v(ONE, 2 * ONE, 3 * ONE);
    let b = v(-ONE, ONE, ONE / 2);
    assert_eq!(a.add(b), v(0, 3 * ONE, 7 * ONE / 2));
    assert_eq!(a.sub(b), v(2 * ONE, ONE, 5 * ONE / 2));
    assert_eq!(a.dot(b), 5 * ONE / 2);
    assert_eq!(a.cross(b), v(-2 * ONE, -7 * ONE / 2, 3 * ONE));
    assert_eq!(a.mul_scalar(2 * ONE), v(2 * ONE, 4 * ONE, 6 * ONE));
    assert_eq!(v(3 * ONE, 4 * ONE, 0).length(), 5 * ONE);
    assert_eq!(v(0, 0, 9 * ONE).unit_vector(), v(0, 0, ONE));
    assert!(v(0, 0, 0).near_zero());
    assert!(!v(1, 0, 0).near_zero());
}

#[test]
fn reflection_about_axis_normal() {
    let incoming = v(ONE, -ONE, 0);
    let n = v(0, ONE, 0);
    assert_eq!(incoming.reflect(&n), v(ONE, ONE, 0));
}

#[test]
fn refraction_at_unit_ratio_changes_nothing_much() {
    let n = v(0, 0, ONE);
    for (dx, dz) in [(0i64, -ONE), (ONE / 2, -56756), (3 * ONE / 5, -4 * ONE / 5)] {
        let dir = v(dx, 0, dz).unit_vector();
        let out = dir.refract(&n, ONE);
        let tol = 16;
        assert!((out.x - dir.x).abs() <= tol, "x bent: {} vs {}", out.x, dir.x);
        assert!((out.y - dir.y).abs() <= tol);
        assert!((out.z - dir.z).abs() <= tol, "z bent: {} vs {}", out.z, dir.z);
    }
}

#[test]
fn ray_at_walks_the_parameter() {
    let r = Ray::from(v(ONE, 0, 0), v(0, 0, -2 * ONE), 0);
    assert_eq!(r.at(ONE / 2), v(ONE, 0, -ONE));
    assert_eq!(r.at(0), v(ONE, 0, 0));
}

#[test]
fn trig_anchor_values() {
    assert_eq!(sin_deg(0), 0);
    assert_eq!(sin_deg(90 * ONE), ONE);
    assert_eq!(sin_deg(180 * ONE), 0);
    assert_eq!(sin_deg(270 * ONE), -ONE);
    assert_eq!(cos_deg(0), ONE);
    assert_eq!(cos_deg(90 * ONE), 0);
    assert_eq!(sin_deg(-90 * ONE), -ONE);
    // The approximation stays close at an interior angle.
    let s30 = sin_deg(30 * ONE);
    assert!((s30 - ONE / 2).abs() < 120, "sin of a sixth turn was {}", s30);
    let rad = degrees2radians(180 * ONE);
    assert!((rad - PI_F).abs() < 300);
}

#[test]
fn arc_functions_stay_in_range() {
    assert_eq!(atan2_f(0, 0), 0);
    let q = atan2_f(ONE, ONE);
    assert!((q - HALF_PI / 2).abs() < 300, "diagonal angle was {}", q);
    let a = acos_f(0);
    assert!((a - HALF_PI).abs() < 300);
    assert!(acos_f(ONE) <= 300);
    assert!((acos_f(-ONE) - PI_F).abs() <= 300);
}

#[test]
fn random_draws_respect_bounds_and_seeding() {
    let mut rng = Rng::from_seed(42);
    for _ in 0..200 {
        let d = random_double(&mut rng);
        assert!(0 <= d && d < ONE);
        let i = random_int(&mut rng, -3, 7);
        assert!(-3 <= i && i <= 7);
        let x = random_double_interval(&mut rng, -5 * ONE, 5 * ONE);
        assert!(-5 * ONE <= x && x <= 5 * ONE);
    }
    let mut a = Rng::from_seed(9);
    let mut b = Rng::from_seed(9);
    for _ in 0..32 {
        assert_eq!(a.unit(), b.unit());
    }
}

#[test]
fn solid_color_answers_its_color_everywhere() {
    let t = Texture::Solid(SolidColor::from_color(v(ONE, ONE / 2, 0)));
    assert_eq!(t.value(0, 0, &v(0, 0, 0)), v(ONE, ONE / 2, 0));
    assert_eq!(t.value(ONE, ONE, &v(9 * ONE, -ONE, 3)), v(ONE, ONE / 2, 0));
}

#[test]
fn checker_texture_alternates_cells() {
    let c = CheckerTexture::from(ONE, v(ONE, ONE, ONE), v(0, 0, 0));
    let t = Texture::Checker(c);
    let even = t.value(0, 0, &v(ONE / 2, ONE / 2, ONE / 2));
    let odd = t.value(0, 0, &v(3 * ONE / 2, ONE / 2, ONE / 2));
    assert_eq!(even, v(ONE, ONE, ONE));
    assert_eq!(odd, v(0, 0, 0));
}

#[test]
fn image_texture_looks_up_pixels_with_clamping() {
    let data = vec![
        255, 0, 0, 0, 255, 0, //
        0, 0, 255, 255, 255, 255,
    ];
    let img = ImageTexture::from_pixels(2, 2, data).expect("well-formed pixel data");
    let t = Texture::Image(img);
    // v runs top-down: (u, v) near (0, 1) lands on the first pixel.
    let red = t.value(0, ONE, &v(0, 0, 0));
    assert_eq!(red, v(ONE, 0, 0));
    let white = t.value(ONE, 0, &v(0, 0, 0));
    assert_eq!(white.x, ONE);
    // Out-of-range coordinates clamp instead of failing.
    let clamped = t.value(5 * ONE, -3 * ONE, &v(0, 0, 0));
    assert_eq!(clamped, v(ONE, ONE, ONE));
}

#[test]
fn image_texture_rejects_mismatched_data() {
    assert!(ImageTexture::from_pixels(2, 2, vec![0, 0, 0]).is_none());
    let empty = ImageTexture::from_pixels(0, 0, vec![]).expect("empty image is fine");
    assert_eq!(Texture::Image(empty).value(0, 0, &v(0, 0, 0)), v(0, ONE, ONE));
}

fn surface_hit() -> HitRecord {
    let mut rec = HitRecord::new();
    rec.p = v(0, 0, -ONE);
    rec.normal = v(0, 0, ONE);
    rec.t = ONE;
    rec.front_face = true;
    rec
}

#[test]
fn lambertian_always_scatters_with_albedo() {
    let m = Material::Lambertian(Lambertian::from_color(v(ONE / 2, ONE / 4, ONE / 8)));
    let mut rng = Rng::from_seed(31);
    let r_in = Ray::from(v(0, 0, 0), v(0, 0, -ONE), 17);
    let rec = surface_hit();
    let (att, sc) = m.scatter(&mut rng, &r_in, &rec).expect("diffuse always scatters");
    assert_eq!(att, v(ONE / 2, ONE / 4, ONE / 8));
    assert_eq!(sc.origin(), rec.p);
    assert_eq!(sc.time(), 17);
}

#[test]
fn metal_reflects_or_absorbs_by_side() {
    let m = Material::Metal(Metal::new(v(ONE, ONE, ONE), 0));
    let mut rng = Rng::from_seed(8);
    let rec = surface_hit();
    let grazing_out = Ray::from(v(0, 0, 0), v(ONE, 0, -ONE), 0);
    let (_, sc) = m.scatter(&mut rng, &grazing_out, &rec).expect("outward reflection");
    assert!(sc.direction().dot(rec.normal) > 0);
    // A ray leaving along the normal reflects into the surface: absorbed.
    let inward = Ray::from(v(0, 0, 0), v(0, 0, ONE), 0);
    assert!(m.scatter(&mut rng, &inward, &rec).is_none());
}

#[test]
fn metal_clamps_fuzz_to_one() {
    let m = Metal::new(v(ONE, ONE, ONE), 5 * ONE);
    assert_eq!(m.fuzz, ONE);
    let kept = Metal::new(v(ONE, ONE, ONE), ONE / 4);
    assert_eq!(kept.fuzz, ONE / 4);
}

#[test]
fn dielectric_at_unit_index_leaves_ray_unbent() {
    let m = Material::Dielectric(Dielectric::new(ONE));
    let rec = surface_hit();
    let dir = v(3 * ONE / 5, 0, -4 * ONE / 5);
    let r_in = Ray::from(v(0, 0, 0), dir, 0);
    let mut rng = Rng::from_seed(2);
    let mut unchanged = 0;
    for _ in 0..20 {
        let (att, sc) = m.scatter(&mut rng, &r_in, &rec).expect("dielectric scatters");
        assert_eq!(att, v(ONE, ONE, ONE));
        assert_eq!(sc.origin(), rec.p);
        let unit = dir.unit_vector();
        let tol = 16;
        if (sc.direction().x - unit.x).abs() <= tol
            && (sc.direction().y - unit.y).abs() <= tol
            && (sc.direction().z - unit.z).abs() <= tol
        {
            unchanged += 1;
        }
    }
    // Schlick reflection at a unit index is drawn with near-zero
    // probability; the transmitted direction must dominate.
    assert!(unchanged >= 19, "only {} of 20 rays passed straight through", unchanged);
}

#[test]
fn dielectric_forces_reflection_past_the_critical_angle() {
    // Leaving glass at grazing incidence: total internal reflection.
    let m = Material::Dielectric(Dielectric::new(3 * ONE / 2));
    let mut rec = surface_hit();
    rec.front_face = false;
    let dir = v(ONE, 0, -6554);
    let r_in = Ray::from(v(0, 0, 0), dir, 0);
    let unit = dir.unit_vector();
    let expect = unit.reflect(&rec.normal);
    for seed in 0..10u64 {
        let mut rng = Rng::from_seed(seed);
        let (_, sc) = m.scatter(&mut rng, &r_in, &rec).expect("dielectric scatters");
        assert_eq!(sc.direction(), expect);
    }
}

#[test]
fn schlick_reflectance_anchors() {
    // Head-on at a unit index: no reflection at all.
    assert_eq!(reflectance(ONE, ONE), 0);
    // Head-on at index 1.5: near four percent.
    let r = reflectance(ONE, 3 * ONE / 2);
    assert!((r - 2621).abs() < 140, "reflectance was {}", r);
    // Grazing incidence reflects nearly everything.
    assert!(reflectance(0, 3 * ONE / 2) > 9 * ONE / 10);
}

#[test]
fn diffuse_light_emits_and_never_scatters() {
    let m = Material::DiffuseLight(DiffuseLight::from_color(v(4 * ONE, 4 * ONE, 4 * ONE)));
    let mut rng = Rng::from_seed(77);
    let r_in = Ray::from(v(0, 0, 0), v(0, 0, -ONE), 0);
    let rec = surface_hit();
    assert!(m.scatter(&mut rng, &r_in, &rec).is_none());
    assert_eq!(m.emitted(0, 0, &v(0, 0, 0)), v(4 * ONE, 4 * ONE, 4 * ONE));
    let dark = Material::Metal(Metal::new(v(ONE, ONE, ONE), 0));
    assert_eq!(dark.emitted(0, 0, &v(0, 0, 0)), v(0, 0, 0));
}

#[test]
fn isotropic_scatters_in_some_direction_with_albedo() {
    let m = Material::Isotropic(Isotropic::from_color(v(ONE / 2, ONE / 2, ONE / 2)));
    let mut rng = Rng::from_seed(12);
    let r_in = Ray::from(v(0, 0, 0), v(0, 0, -ONE), 3);
    let rec = surface_hit();
    let (att, sc) = m.scatter(&mut rng, &r_in, &rec).expect("phase function scatters");
    assert_eq!(att, v(ONE / 2, ONE / 2, ONE / 2));
    assert_eq!(sc.time(), 3);
    assert!(!sc.direction().near_zero());
}

#[test]
fn perlin_noise_is_seed_deterministic() {
    let mut r1 = Rng::from_seed(1234);
    let mut r2 = Rng::from_seed(1234);
    let p1 = Perlin::new(256, &mut r1);
    let p2 = Perlin::new(256, &mut r2);
    let q = v(3 * ONE / 2, -7 * ONE / 3, 5 * ONE / 4);
    assert_eq!(p1.noise(&q), p2.noise(&q));
    assert_eq!(p1.noise(&q), p1.noise(&q));
    assert_eq!(p1.turb(q, 7), p2.turb(q, 7));
}

#[test]
fn perlin_turbulence_is_nonnegative() {
    let mut rng = Rng::from_seed(88);
    let p = Perlin::new(256, &mut rng);
    for k in -6i64..6 {
        let q = v(k * ONE / 2, -k * ONE / 3, k * ONE);
        assert!(p.turb(q, 7) >= 0, "turbulence dipped below zero at step {}", k);
    }
}

#[test]
fn noise_texture_answers_a_gray_marble_tone() {
    let mut rng = Rng::from_seed(55);
    let nt = NoiseTexture::from(256, fmul(4 * ONE, ONE), &mut rng);
    let t = Texture::Noise(nt);
    let c = t.value(0, 0, &v(ONE / 3, ONE / 5, ONE / 7));
    assert_eq!(c.x, c.y);
    assert_eq!(c.y, c.z);
    assert!(0 <= c.x && c.x <= ONE + 16);
}
