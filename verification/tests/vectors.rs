use pathtracer::ray::Ray;
use pathtracer::scalar::Scalar;
use pathtracer::vec3::Vec3;

fn s(x: f32) -> Scalar {
    Scalar::from_bits(x.to_bits())
}

fn v(x: f32, y: f32, z: f32) -> Vec3 {
    Vec3::new(s(x), s(y), s(z))
}

#[test]
fn components_come_back_as_given() {
    let a = v(1.0, -2.5, 3.25);
    assert_eq!(a.x(), s(1.0));
    assert_eq!(a.y(), s(-2.5));
    assert_eq!(a.z(), s(3.25));
    assert_eq!(a.e, [s(1.0), s(-2.5), s(3.25)]);
}

#[test]
fn channels_are_the_components() {
    let a = v(0.5, 0.7, 1.0);
    assert_eq!(a.r(), a.x());
    assert_eq!(a.g(), a.y());
    assert_eq!(a.b(), a.z());
    assert_eq!(f32::from_bits(a.g().to_bits()), 0.7);
}

#[test]
fn index_reads_each_component() {
    let a = v(4.0, 5.0, 6.0);
    assert_eq!(*a.index(0), s(4.0));
    assert_eq!(*a.index(1), s(5.0));
    assert_eq!(*a.index(2), s(6.0));
}

#[test]
fn the_default_vector_is_black() {
    let black = Vec3::default();
    assert_eq!(black, v(0.0, 0.0, 0.0));
    assert_eq!(black.r().to_bits(), 0);
    assert_eq!(black.g().to_bits(), 0);
    assert_eq!(black.b().to_bits(), 0);
}

#[test]
fn neg_negates_each_component() {
    let a = v(1.0, -2.0, 0.0);
    let n = a.neg();
    assert_eq!(f32::from_bits(n.x().to_bits()), -1.0);
    assert_eq!(f32::from_bits(n.y().to_bits()), 2.0);
    assert_eq!(n.z().to_bits(), (-0.0f32).to_bits());
    assert_eq!(n.neg(), a);
}

#[test]
fn a_ray_keeps_origin_and_direction() {
    let origin = v(0.0, 0.0, 0.0);
    let direction = v(0.0, 0.0, -1.0);
    let ray = Ray::new(origin, direction);
    assert_eq!(ray.origin(), origin);
    assert_eq!(ray.direction(), direction);
    assert_eq!(ray.origin, origin);
    assert_eq!(ray.direction, direction);
}

#[test]
fn a_ray_may_have_no_direction() {
    let ray = Ray::new(v(1.0, 2.0, 3.0), v(0.0, 0.0, 0.0));
    assert_eq!(ray.direction(), Vec3::default());
}
