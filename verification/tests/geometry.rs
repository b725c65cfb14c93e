use raycore::aabb::Aabb;
use raycore::bvh::BvhNode;
use raycore::constant_medium::ConstantMedium;
use raycore::fixed::{FMAX, ONE};
use raycore::hittable::{Hittable, RotateY, Translate};
use raycore::hittable_list::HittableList;
use raycore::interval::{Interval, INF};
use raycore::quad::{box_volume, Quad};
use raycore::ray::Ray;
use raycore::rng::Rng;
use raycore::sphere::Sphere;
use raycore::vec3::Vec3;

fn v(x: i64, y: i64, z: i64) -> Vec3 {
    Vec3::from(x, y, z)
}

fn shot(origin: Vec3, direction: Vec3) -> Ray {
    Ray::from(origin, direction, 0)
}

fn clip_interval() -> Interval {
    Interval::from(66, INF)
}

#[test]
fn interval_contains_is_inclusive_surrounds_is_strict() {
    let i = Interval::from(10, 20);
    assert!(i.contains(10) && i.contains(20) && i.contains(15));
    assert!(!i.surrounds(10) && !i.surrounds(20) && i.surrounds(15));
    assert!(!i.contains(9) && !i.contains(21));
}

#[test]
fn interval_clamp_returns_nearer_bound() {
    let i = Interval::from(10, 20);
    assert_eq!(i.clamp(5), 10);
    assert_eq!(i.clamp(25), 20);
    assert_eq!(i.clamp(15), 15);
}

#[test]
fn interval_union_is_commutative_associative_idempotent() {
    let a = Interval::from(-5, 3);
    let b = Interval::from(1, 9);
    let c = Interval::from(-20, -10);
    assert_eq!(Interval::from_intervals(a, b), Interval::from_intervals(b, a));
    assert_eq!(
        Interval::from_intervals(Interval::from_intervals(a, b), c),
        Interval::from_intervals(a, Interval::from_intervals(b, c))
    );
    assert_eq!(Interval::from_intervals(a, a), a);
}

#[test]
fn interval_default_is_empty_universe_is_full() {
    let e = Interval::new();
    assert!(e.min() > e.max());
    let u = Interval::universe();
    assert!(u.contains(0) && u.contains(FMAX) && u.contains(-FMAX));
}

#[test]
fn interval_expand_splits_evenly() {
    let i = Interval::from(0, 10).expand(8);
    assert_eq!(i.min(), -4);
    assert_eq!(i.max(), 14);
}

#[test]
fn aabb_union_laws_on_concrete_boxes() {
    let a = Aabb::from_points(v(0, 0, 0), v(ONE, ONE, ONE));
    let b = Aabb::from_points(v(-ONE, 2 * ONE, 0), v(ONE / 2, 3 * ONE, ONE));
    let c = Aabb::from_points(v(5 * ONE, 0, -ONE), v(6 * ONE, ONE, 0));
    assert_eq!(Aabb::from_bbox(a, b), Aabb::from_bbox(b, a));
    assert_eq!(
        Aabb::from_bbox(Aabb::from_bbox(a, b), c),
        Aabb::from_bbox(a, Aabb::from_bbox(b, c))
    );
    assert_eq!(Aabb::from_bbox(a, a), a);
}

#[test]
fn aabb_pad_thickens_degenerate_axis_only() {
    let flat = Aabb::from_points(v(0, 0, 0), v(ONE, ONE, 0));
    let padded = flat.pad();
    assert_eq!(padded.x(), flat.x());
    assert_eq!(padded.y(), flat.y());
    assert_eq!(padded.z().min(), -4);
    assert_eq!(padded.z().max(), 4);
}

#[test]
fn aabb_slab_test_hits_and_misses() {
    let b = Aabb::from_points(v(-ONE, -ONE, -ONE), v(ONE, ONE, ONE));
    let through = shot(v(0, 0, -3 * ONE), v(0, 0, ONE));
    assert!(b.hit(&through, Interval::from(0, INF)));
    let beside = shot(v(3 * ONE, 0, -3 * ONE), v(0, 0, ONE));
    assert!(!b.hit(&beside, Interval::from(0, INF)));
    let zero_axis_inside = shot(v(0, 0, -3 * ONE), v(0, 0, ONE));
    assert!(b.hit(&zero_axis_inside, Interval::from(0, INF)));
}

#[test]
fn sphere_hit_stationary_unit_case() {
    let s = Sphere::new_stationnary(v(0, 0, -ONE), ONE / 2, 0);
    let r = shot(v(0, 0, 0), v(0, 0, -ONE));
    let rec = s.hit(&r, clip_interval()).expect("the ray points at the sphere");
    assert_eq!(rec.t, ONE / 2);
    assert_eq!(rec.p, v(0, 0, -ONE / 2));
    assert_eq!(rec.normal, v(0, 0, ONE));
    assert!(rec.front_face);
}

#[test]
fn sphere_hit_t_strictly_inside_interval() {
    let s = Sphere::new_stationnary(v(0, 0, -ONE), ONE / 2, 0);
    let r = shot(v(0, 0, 0), v(0, 0, -ONE));
    // The near root is exactly half a unit: an interval ending there must
    // reject it and fall through to the far root.
    let rec = s.hit(&r, Interval::from(66, ONE / 2)).map(|h| h.t);
    assert_eq!(rec, None);
    let far = s.hit(&r, Interval::from(ONE / 2, 2 * ONE)).expect("far root");
    assert_eq!(far.t, 3 * ONE / 2);
}

#[test]
fn sphere_hit_miss_and_degenerate_direction() {
    let s = Sphere::new_stationnary(v(0, 0, -ONE), ONE / 2, 0);
    let away = shot(v(0, 0, 0), v(0, 0, ONE));
    assert!(s.hit(&away, clip_interval()).is_none());
    let zero = shot(v(0, 0, 0), v(0, 0, 0));
    assert!(s.hit(&zero, clip_interval()).is_none());
}

#[test]
fn moving_sphere_center_interpolates() {
    let s = Sphere::new_moving(v(0, 0, -ONE), v(0, 0, -3 * ONE), ONE / 2, 0);
    // At time one, the center sits at the second endpoint.
    let r = Ray::from(v(0, 0, 0), v(0, 0, -ONE), ONE);
    let rec = s.hit(&r, clip_interval()).expect("hit the moved sphere");
    assert_eq!(rec.t, 5 * ONE / 2);
}

#[test]
fn quad_hit_interior_and_exterior() {
    let q = Quad::from(v(-ONE, -ONE, -2 * ONE), v(2 * ONE, 0, 0), v(0, 2 * ONE, 0), 0);
    let center = shot(v(0, 0, 0), v(0, 0, -ONE));
    let rec = q.hit(&center, clip_interval()).expect("plane straight ahead");
    assert_eq!(rec.t, 2 * ONE);
    assert_eq!(rec.u, ONE / 2);
    assert_eq!(rec.v, ONE / 2);
    assert!(rec.front_face);
    assert_eq!(rec.normal, v(0, 0, ONE));
    let outside = shot(v(3 * ONE, 0, 0), v(0, 0, -ONE));
    assert!(q.hit(&outside, clip_interval()).is_none());
    let parallel = shot(v(0, 0, 0), v(ONE, 0, 0));
    assert!(q.hit(&parallel, clip_interval()).is_none());
}

#[test]
fn box_volume_builds_six_sides() {
    let b = box_volume(v(0, 0, 0), v(ONE, ONE, ONE), 0);
    assert_eq!(b.objects.len(), 6);
    // A ray from outside along the axis hits the near face at its plane.
    let r = shot(v(ONE / 2, ONE / 2, 3 * ONE), v(0, 0, -ONE));
    let mut rng = Rng::from_seed(5);
    let rec = Hittable::List(b).hit(&r, clip_interval(), &mut rng).expect("box face");
    assert_eq!(rec.t, 2 * ONE);
}

#[test]
fn hittable_list_reports_nearest_member() {
    let mut world = HittableList::new();
    world.add(Hittable::Sphere(Sphere::new_stationnary(v(0, 0, -4 * ONE), ONE, 0)));
    world.add(Hittable::Sphere(Sphere::new_stationnary(v(0, 0, -2 * ONE), ONE / 2, 1)));
    let r = shot(v(0, 0, 0), v(0, 0, -ONE));
    let mut rng = Rng::from_seed(7);
    let rec = world.hit(&r, clip_interval(), &mut rng).expect("two spheres ahead");
    assert_eq!(rec.t, 3 * ONE / 2);
    assert_eq!(rec.mat, 1);
}

#[test]
fn hittable_list_bbox_is_union_of_members() {
    let mut world = HittableList::new();
    let s1 = Sphere::new_stationnary(v(0, 0, 0), ONE, 0);
    let s2 = Sphere::new_stationnary(v(4 * ONE, 0, 0), ONE, 0);
    let expect = Aabb::from_bbox(s1.bbox, s2.bbox);
    world.add(Hittable::Sphere(s1));
    world.add(Hittable::Sphere(s2));
    assert_eq!(world.bbox, expect);
    world.clear();
    assert_eq!(world.objects.len(), 0);
    assert!(world.bbox.x().min() > world.bbox.x().max());
}

#[test]
fn translate_round_trip_is_exact() {
    let s = Sphere::new_stationnary(v(0, 0, -2 * ONE), ONE, 0);
    let bare = Hittable::Sphere(s);
    let off = v(3 * ONE, -ONE, ONE / 2);
    let neg = v(-3 * ONE, ONE, -ONE / 2);
    let inner = Translate::from(
        Box::new(Hittable::Sphere(Sphere::new_stationnary(v(0, 0, -2 * ONE), ONE, 0))),
        neg,
    );
    let outer = Translate::from(Box::new(Hittable::Translate(inner)), off);
    let r = shot(v(0, ONE / 4, 0), v(0, 0, -ONE));
    let mut rng = Rng::from_seed(11);
    let direct = bare.hit(&r, clip_interval(), &mut rng);
    let wrapped = Hittable::Translate(outer).hit(&r, clip_interval(), &mut rng);
    assert_eq!(direct, wrapped);
}

#[test]
fn rotate_then_inverse_angle_round_trip_within_tolerance() {
    let deg30 = 30 * ONE;
    let sphere = || Hittable::Sphere(Sphere::new_stationnary(v(0, 0, -2 * ONE), ONE, 0));
    let inner = RotateY::from(Box::new(sphere()), -deg30);
    let outer = RotateY::from(Box::new(Hittable::RotateY(inner)), deg30);
    let off = v(ONE, 0, 0);
    let neg = v(-ONE, 0, 0);
    let shifted = Translate::from(Box::new(Hittable::RotateY(outer)), off);
    let inv = Translate::from(Box::new(Hittable::Translate(shifted)), neg);
    let r = shot(v(ONE / 4, ONE / 8, ONE), v(0, 0, -ONE));
    let mut rng = Rng::from_seed(13);
    let direct = sphere().hit(&r, clip_interval(), &mut rng).expect("bare hit");
    let wrapped = Hittable::Translate(inv)
        .hit(&r, clip_interval(), &mut rng)
        .expect("wrapped hit");
    let tol = 512;
    assert!((direct.t - wrapped.t).abs() <= tol);
    assert!((direct.p.x - wrapped.p.x).abs() <= tol);
    assert!((direct.p.y - wrapped.p.y).abs() <= tol);
    assert!((direct.p.z - wrapped.p.z).abs() <= tol);
}

#[test]
fn rotate_quarter_turn_box_is_exact() {
    let s = Sphere::new_stationnary(v(2 * ONE, 0, ONE), ONE, 0);
    let child_box = s.bbox;
    let rot = RotateY::from(Box::new(Hittable::Sphere(s)), 90 * ONE);
    assert_eq!(rot.sin_theta, ONE);
    assert_eq!(rot.cos_theta, 0);
    // A quarter turn maps (x, z) to (z, -x): the new x-range is the old
    // z-range and the new z-range is the old x-range negated and swapped.
    assert_eq!(rot.bbox.x(), child_box.z());
    assert_eq!(rot.bbox.z().min(), -child_box.x().max());
    assert_eq!(rot.bbox.z().max(), -child_box.x().min());
    assert_eq!(rot.bbox.y(), child_box.y());
}

fn sample_world(seed: u64, reversed: bool) -> HittableList {
    let mut rng = Rng::from_seed(seed);
    let mut spheres: Vec<Hittable> = Vec::new();
    for k in 0..24i64 {
        let cx = raycore::rtweekend::random_double_interval(&mut rng, -8 * ONE, 8 * ONE);
        let cy = raycore::rtweekend::random_double_interval(&mut rng, -8 * ONE, 8 * ONE);
        let cz = raycore::rtweekend::random_double_interval(&mut rng, -20 * ONE, -4 * ONE);
        let rad = raycore::rtweekend::random_double_interval(&mut rng, ONE / 4, 2 * ONE);
        spheres.push(Hittable::Sphere(Sphere::new_stationnary(
            v(cx, cy, cz),
            rad,
            k as usize,
        )));
    }
    if reversed {
        spheres.reverse();
    }
    let mut world = HittableList::new();
    for s in spheres {
        world.add(s);
    }
    world
}

fn sample_rays(seed: u64, n: usize) -> Vec<Ray> {
    let mut rng = Rng::from_seed(seed);
    let mut rays = Vec::new();
    for _ in 0..n {
        let ox = raycore::rtweekend::random_double_interval(&mut rng, -2 * ONE, 2 * ONE);
        let oy = raycore::rtweekend::random_double_interval(&mut rng, -2 * ONE, 2 * ONE);
        let dx = raycore::rtweekend::random_double_interval(&mut rng, -ONE / 2, ONE / 2);
        let dy = raycore::rtweekend::random_double_interval(&mut rng, -ONE / 2, ONE / 2);
        rays.push(shot(v(ox, oy, 0), v(dx, dy, -ONE)));
    }
    rays
}

#[test]
fn bvh_query_matches_linear_scan() {
    let world = sample_world(101, false);
    let scan = sample_world(101, false);
    let mut build_rng = Rng::from_seed(55);
    let root = BvhNode::from_list(world, &mut build_rng);
    let tree = Hittable::Node(root);
    let mut rng = Rng::from_seed(77);
    for r in sample_rays(202, 60) {
        let from_tree = tree.hit(&r, clip_interval(), &mut rng);
        let from_scan = scan.hit(&r, clip_interval(), &mut rng);
        assert_eq!(from_tree, from_scan);
    }
}

#[test]
fn bvh_rebuild_from_shuffled_objects_answers_identically() {
    let mut rng_a = Rng::from_seed(1);
    let mut rng_b = Rng::from_seed(2);
    let root_a = BvhNode::from_list(sample_world(303, false), &mut rng_a);
    let root_b = BvhNode::from_list(sample_world(303, true), &mut rng_b);
    assert_eq!(root_a.bbox, root_b.bbox);
    let tree_a = Hittable::Node(root_a);
    let tree_b = Hittable::Node(root_b);
    let mut rng = Rng::from_seed(99);
    for r in sample_rays(404, 60) {
        let ha = tree_a.hit(&r, clip_interval(), &mut rng);
        let hb = tree_b.hit(&r, clip_interval(), &mut rng);
        assert_eq!(ha, hb);
    }
}

#[test]
fn bvh_root_bbox_is_union_of_member_boxes() {
    let world = sample_world(505, false);
    let mut expect = world.objects[0].bounding_box();
    for o in world.objects.iter().skip(1) {
        expect = Aabb::from_bbox(expect, o.bounding_box());
    }
    let mut rng = Rng::from_seed(3);
    let root = BvhNode::from_list(world, &mut rng);
    assert_eq!(root.bbox, expect);
}

#[test]
fn bvh_box_overlap_without_geometric_hit() {
    // The small sphere sits wholly inside the big sphere's bounding box
    // without the spheres intersecting; a ray through the gap crosses the
    // node's box yet hits neither surface.
    let big = Sphere::new_stationnary(v(0, 0, 0), ONE, 0);
    let small_center = v(45875, 45875, 45875);
    let small = Sphere::new_stationnary(small_center, 9830, 1);
    let big_box = big.bbox;
    assert!(big_box.x().min() <= small.bbox.x().min());
    assert!(small.bbox.x().max() <= big_box.x().max());
    let mut world = HittableList::new();
    world.add(Hittable::Sphere(big));
    world.add(Hittable::Sphere(small));
    let mut rng = Rng::from_seed(21);
    let root = BvhNode::from_list(world, &mut rng);
    let gap_ray = shot(v(9 * ONE / 10, 9 * ONE / 10, 3 * ONE), v(0, 0, -ONE));
    assert!(root.bbox.hit(&gap_ray, Interval::from(0, INF)));
    let tree = Hittable::Node(root);
    assert!(tree.hit(&gap_ray, clip_interval(), &mut rng).is_none());
}

#[test]
fn constant_medium_hit_stays_inside_interval() {
    let mut materials = Vec::new();
    let boundary = Box::new(Hittable::Sphere(Sphere::new_stationnary(v(0, 0, -4 * ONE), ONE, 0)));
    let medium = ConstantMedium::from_color(boundary, ONE, v(ONE, ONE, ONE), &mut materials);
    assert_eq!(materials.len(), 1);
    assert_eq!(medium.neg_inv_density, -ONE);
    let itv = clip_interval();
    for seed in 0..40u64 {
        let mut rng = Rng::from_seed(seed);
        let r = shot(v(0, 0, 0), v(0, 0, -ONE));
        if let Some(rec) = medium.hit(&r, itv, &mut rng) {
            assert!(itv.min() <= rec.t && rec.t <= itv.max());
            assert_eq!(rec.mat, 0);
            assert_eq!(rec.normal, v(0, 0, 0));
        }
    }
    let mut rng = Rng::from_seed(9);
    let miss = shot(v(5 * ONE, 0, 0), v(0, 0, -ONE));
    assert!(medium.hit(&miss, itv, &mut rng).is_none());
}

#[test]
fn constant_medium_scatters_somewhere_inside_on_some_seed() {
    let mut materials = Vec::new();
    let boundary = Box::new(Hittable::Sphere(Sphere::new_stationnary(v(0, 0, -4 * ONE), ONE, 0)));
    let medium = ConstantMedium::from_color(boundary, 4 * ONE, v(ONE, ONE, ONE), &mut materials);
    let mut scattered = 0;
    for seed in 0..40u64 {
        let mut rng = Rng::from_seed(seed);
        let r = shot(v(0, 0, 0), v(0, 0, -ONE));
        if medium.hit(&r, clip_interval(), &mut rng).is_some() {
            scattered += 1;
        }
    }
    assert!(scattered > 0);
}

#[test]
fn quad_box_spans_all_four_corners() {
    // Mixed-sign edge vectors: the far diagonal corner alone would miss
    // the corners reached by a single edge.
    let q = v(0, 0, 0);
    let u = v(2 * ONE, 0, ONE);
    let w = v(ONE, 0, -ONE);
    let quad = Quad::from(q, u, w, 0);
    let corners = [
        q,
        q.add(u),
        q.add(w),
        q.add(u).add(w),
    ];
    for c in corners {
        assert!(quad.bbox.x().contains(c.x), "x corner {} escaped the box", c.x);
        assert!(quad.bbox.y().contains(c.y));
        assert!(quad.bbox.z().contains(c.z), "z corner {} escaped the box", c.z);
    }
    assert!(quad.bbox.y().size() >= 8);
}

fn quad_fields(h: &Hittable) -> Quad {
    match h {
        Hittable::Quad(q) => *q,
        _ => panic!("a prism side should be a quad"),
    }
}

#[test]
fn box_volume_builds_the_prism_faces_order_blind() {
    let a = v(ONE, 3 * ONE, 0);
    let b = v(2 * ONE, 0, ONE);
    let fwd = box_volume(a, b, 4);
    let rev = box_volume(b, a, 4);
    let min = v(ONE, 0, 0);
    let max = v(2 * ONE, 3 * ONE, ONE);
    let dx = v(ONE, 0, 0);
    let dy = v(0, 3 * ONE, 0);
    let dz = v(0, 0, ONE);
    let front = quad_fields(&fwd.objects[0]);
    assert_eq!(front.q, v(min.x, min.y, max.z));
    assert_eq!(front.u, dx);
    assert_eq!(front.v, dy);
    assert_eq!(front.mat, 4);
    let bottom = quad_fields(&fwd.objects[5]);
    assert_eq!(bottom.q, min);
    assert_eq!(bottom.u, dx);
    assert_eq!(bottom.v, dz);
    for k in 0..6 {
        assert_eq!(quad_fields(&fwd.objects[k]), quad_fields(&rev.objects[k]));
    }
}

#[test]
fn bvh_single_object_node_answers_like_the_object() {
    let s = Sphere::new_stationnary(v(0, 0, -2 * ONE), ONE, 3);
    let mut world = HittableList::new();
    world.add(Hittable::Sphere(s));
    let mut rng = Rng::from_seed(17);
    let root = BvhNode::from_list(world, &mut rng);
    let tree = Hittable::Node(root);
    let through = shot(v(0, 0, 0), v(0, 0, -ONE));
    let beside = shot(v(3 * ONE, 0, 0), v(0, 0, -ONE));
    assert_eq!(
        tree.hit(&through, clip_interval(), &mut rng),
        s.hit(&through, clip_interval())
    );
    assert_eq!(
        tree.hit(&beside, clip_interval(), &mut rng),
        s.hit(&beside, clip_interval())
    );
}

#[test]
fn constant_medium_refuses_a_corridor_behind_the_ray() {
    let mut materials = Vec::new();
    let boundary = Box::new(Hittable::Sphere(Sphere::new_stationnary(v(0, 0, 4 * ONE), ONE, 0)));
    let medium = ConstantMedium::from_color(boundary, ONE, v(ONE, ONE, ONE), &mut materials);
    // The boundary sits behind the ray: both intersections are negative,
    // so the clipped corridor is empty for every draw.
    for seed in 0..20u64 {
        let mut rng = Rng::from_seed(seed);
        let r = shot(v(0, 0, 0), v(0, 0, -ONE));
        assert!(medium.hit(&r, clip_interval(), &mut rng).is_none());
    }
}

#[test]
fn rotate_quarter_turn_round_trip_is_exact() {
    // Quarter turns are the angles where the fixed-point sine and cosine
    // are exact, so the rotation round trip is an identity, not merely
    // within tolerance.
    let sphere = || Hittable::Sphere(Sphere::new_stationnary(v(ONE, ONE / 2, -3 * ONE), ONE, 2));
    let inner = RotateY::from(Box::new(sphere()), -90 * ONE);
    assert_eq!(inner.sin_theta, -ONE);
    assert_eq!(inner.cos_theta, 0);
    let outer = RotateY::from(Box::new(Hittable::RotateY(inner)), 90 * ONE);
    let wrapped = Hittable::RotateY(outer);
    let mut rng = Rng::from_seed(23);
    for (ox, oy) in [(0i64, 0i64), (ONE / 2, ONE / 4), (-ONE, ONE)] {
        let r = shot(v(ox, oy, 0), v(ONE / 4, 0, -ONE));
        let direct = sphere().hit(&r, clip_interval(), &mut rng);
        let round = wrapped.hit(&r, clip_interval(), &mut rng);
        assert_eq!(direct, round);
    }
}
