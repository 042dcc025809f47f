use pathtracer::hittable::nearest_hit;
use pathtracer::hittable::Hit;
use pathtracer::hittable::Roots;
use pathtracer::scalar::Scalar;

fn s(x: f32) -> Scalar {
    Scalar::from_bits(x.to_bits())
}

fn number(x: Scalar) -> f32 {
    f32::from_bits(x.to_bits())
}

fn dot(a: [f32; 3], b: [f32; 3]) -> f32 {
    a[0] * b[0] + a[1] * b[1] + a[2] * b[2]
}

/// The intersection quadratic of a sphere and a ray, solved in single
/// precision.
fn sphere_roots(center: [f32; 3], radius: f32, origin: [f32; 3], direction: [f32; 3]) -> Roots {
    let oc = [origin[0] - center[0], origin[1] - center[1], origin[2] - center[2]];
    let a = dot(direction, direction);
    let half_b = dot(oc, direction);
    let c = dot(oc, oc) - radius * radius;
    let discriminant = half_b * half_b - a * c;
    let root = discriminant.sqrt();
    Roots::new(s(discriminant), s((-half_b - root) / a), s((-half_b + root) / a))
}

fn roots(discriminant: f32, near: f32, far: f32) -> Roots {
    Roots::new(s(discriminant), s(near), s(far))
}

#[test]
fn sphere_in_front_is_hit_at_its_near_side() {
    let origin = [0.0, 0.0, 0.0];
    let direction = [0.0, 0.0, -1.0];
    let center = [0.0, 0.0, -1.0];
    let radius = 0.5;
    let r = sphere_roots(center, radius, origin, direction);
    let t = r.hit(s(0.001), s(f32::INFINITY)).expect("the ray hits the sphere");
    assert_eq!(number(t), 0.5);
    let p = [origin[0] + direction[0] * number(t), origin[1] + direction[1] * number(t), origin[2]
        + direction[2] * number(t)];
    let normal = [(p[0] - center[0]) / radius, (p[1] - center[1]) / radius, (p[2] - center[2])
        / radius];
    assert_eq!(normal, [0.0, 0.0, 1.0]);
}

#[test]
fn sphere_in_front_is_the_nearest_hit_of_its_scene() {
    let scene = vec![sphere_roots([0.0, 0.0, -1.0], 0.5, [0.0, 0.0, 0.0], [0.0, 0.0, -1.0])];
    let hit = nearest_hit(&scene, s(0.001), s(f32::INFINITY));
    assert_eq!(hit, Some(Hit { index: 0, t: s(0.5) }));
}

#[test]
fn sphere_behind_the_ray_is_missed() {
    let r = sphere_roots([0.0, 0.0, 1.0], 0.5, [0.0, 0.0, 0.0], [0.0, 0.0, -1.0]);
    assert_eq!(number(r.near), -1.5);
    assert_eq!(number(r.far), -0.5);
    assert_eq!(r.hit(s(0.001), s(f32::INFINITY)), None);
}

#[test]
fn sphere_beside_the_ray_is_missed() {
    let r = sphere_roots([2.0, 0.0, -1.0], 0.5, [0.0, 0.0, 0.0], [0.0, 0.0, -1.0]);
    assert!(number(r.discriminant) < 0.0);
    assert_eq!(r.hit(s(0.001), s(f32::INFINITY)), None);
}

#[test]
fn from_inside_the_far_side_is_hit() {
    let r = sphere_roots([0.0, 0.0, 0.0], 1.0, [0.0, 0.0, 0.0], [0.0, 0.0, -1.0]);
    assert_eq!(number(r.near), -1.0);
    assert_eq!(r.hit(s(0.001), s(f32::INFINITY)), Some(s(1.0)));
}

#[test]
fn a_grazing_ray_with_zero_discriminant_misses() {
    let r = roots(0.0, 1.0, 1.0);
    assert_eq!(r.hit(s(0.001), s(f32::INFINITY)), None);
}

#[test]
fn a_discriminant_that_is_not_a_number_misses() {
    let r = roots(f32::NAN, 1.0, 2.0);
    assert_eq!(r.hit(s(0.001), s(f32::INFINITY)), None);
}

#[test]
fn the_interval_is_open_at_both_ends() {
    let r = roots(1.0, 1.0, 2.0);
    assert_eq!(r.hit(s(1.0), s(2.0)), None);
    assert_eq!(r.hit(s(1.0), s(2.5)), Some(s(2.0)));
    assert_eq!(r.hit(s(0.5), s(2.0)), Some(s(1.0)));
    assert_eq!(r.hit(s(0.5), s(1.0)), None);
}

#[test]
fn the_near_root_is_tried_first() {
    let r = roots(1.0, 1.0, 2.0);
    assert_eq!(r.hit(s(0.0), s(10.0)), Some(s(1.0)));
}

#[test]
fn a_root_that_is_not_a_number_is_never_taken() {
    assert_eq!(roots(1.0, f32::NAN, 2.0).hit(s(0.0), s(10.0)), Some(s(2.0)));
    assert_eq!(roots(1.0, 1.0, f32::NAN).hit(s(0.0), s(10.0)), Some(s(1.0)));
    assert_eq!(roots(1.0, f32::NAN, f32::NAN).hit(s(0.0), s(10.0)), None);
}

#[test]
fn a_limit_that_is_not_a_number_admits_nothing() {
    let r = roots(1.0, 1.0, 2.0);
    assert_eq!(r.hit(s(f32::NAN), s(10.0)), None);
    assert_eq!(r.hit(s(0.0), s(f32::NAN)), None);
}

#[test]
fn an_infinite_root_is_outside_an_infinite_interval() {
    let r = roots(1.0, f32::NEG_INFINITY, f32::INFINITY);
    assert_eq!(r.hit(s(0.001), s(f32::INFINITY)), None);
}

#[test]
fn an_empty_scene_has_no_hit() {
    let scene: Vec<Roots> = Vec::new();
    assert_eq!(nearest_hit(&scene, s(0.001), s(f32::INFINITY)), None);
}

#[test]
fn the_nearest_primitive_wins_whatever_the_order() {
    let a = roots(1.0, 3.0, 4.0);
    let b = roots(1.0, 1.0, 2.0);
    let c = roots(1.0, 5.0, 6.0);
    let lo = s(0.001);
    let hi = s(f32::INFINITY);
    assert_eq!(nearest_hit(&vec![a, b, c], lo, hi), Some(Hit { index: 1, t: s(1.0) }));
    assert_eq!(nearest_hit(&vec![b, a, c], lo, hi), Some(Hit { index: 0, t: s(1.0) }));
    assert_eq!(nearest_hit(&vec![c, a, b], lo, hi), Some(Hit { index: 2, t: s(1.0) }));
    assert_eq!(nearest_hit(&vec![c, b, a], lo, hi), Some(Hit { index: 1, t: s(1.0) }));
}

#[test]
fn of_two_equally_near_primitives_the_first_wins() {
    let a = roots(1.0, 1.0, 2.0);
    let scene = vec![roots(1.0, 7.0, 8.0), a, a];
    assert_eq!(
        nearest_hit(&scene, s(0.001), s(f32::INFINITY)),
        Some(Hit { index: 1, t: s(1.0) })
    );
}

#[test]
fn primitives_without_a_hit_are_passed_over() {
    let scene = vec![
        roots(-1.0, 0.5, 0.6),
        roots(1.0, -3.0, -2.0),
        roots(1.0, -1.0, 4.0),
        roots(0.0, 1.0, 1.0),
    ];
    assert_eq!(
        nearest_hit(&scene, s(0.001), s(f32::INFINITY)),
        Some(Hit { index: 2, t: s(4.0) })
    );
}

#[test]
fn a_scene_of_misses_has_no_hit() {
    let scene = vec![roots(-1.0, 0.5, 0.6), roots(1.0, -3.0, -2.0), roots(1.0, 20.0, 30.0)];
    assert_eq!(nearest_hit(&scene, s(0.001), s(10.0)), None);
}

#[test]
fn a_far_root_nearer_than_the_closest_so_far_replaces_it() {
    let scene = vec![roots(1.0, 3.0, 9.0), roots(1.0, -1.0, 2.0)];
    assert_eq!(
        nearest_hit(&scene, s(0.001), s(f32::INFINITY)),
        Some(Hit { index: 1, t: s(2.0) })
    );
}

#[test]
fn two_spheres_in_line_hit_the_one_in_front() {
    let origin = [0.0, 0.0, 0.0];
    let direction = [0.0, 0.0, -1.0];
    let scene = vec![
        sphere_roots([0.0, 0.0, -5.0], 1.0, origin, direction),
        sphere_roots([0.0, 0.0, -2.0], 0.5, origin, direction),
        sphere_roots([0.0, -100.5, -1.0], 100.0, origin, direction),
    ];
    let hit = nearest_hit(&scene, s(0.001), s(f32::INFINITY)).expect("a sphere is hit");
    assert_eq!(hit.index, 1);
    assert_eq!(number(hit.t), 1.5);
}

#[test]
fn a_hollow_sphere_has_the_roots_of_the_solid_one() {
    let origin = [0.0, 0.0, 0.0];
    let direction = [0.0, 0.0, -1.0];
    let solid = sphere_roots([0.0, 0.0, -1.0], 0.5, origin, direction);
    let hollow = sphere_roots([0.0, 0.0, -1.0], -0.5, origin, direction);
    assert_eq!(solid, hollow);
    assert_eq!(hollow.hit(s(0.001), s(f32::INFINITY)), Some(s(0.5)));
}
