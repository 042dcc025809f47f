//! What a surface does with a ray that hits it.
//!
//! The directions in which a material may send a ray on are computed by the
//! caller, who also draws the random numbers. This module holds the
//! materials, the choices between those directions, and the scattered ray
//! with its attenuation.

use vstd::prelude::*;
use crate::scalar::Scalar;
use crate::scalar::ONE_BITS;
use crate::vec3::Vec3;
use crate::ray::Ray;

verus! {

/// A scattered ray and the factor by which the surface attenuates, channel
/// by channel, the light that arrives along it.
#[derive(Clone, Copy, Debug, PartialEq, Eq)]
pub struct ScatterRet {
    pub attenuation: Vec3,
    pub ray: Ray,
}

/// A diffuse surface.
#[derive(Clone, Copy, Debug, PartialEq, Eq)]
pub struct Lambertian {
    pub albedo: Vec3,
}

/// A reflecting surface; `fuzz` scales the random perturbation of the
/// mirror direction.
#[derive(Clone, Copy, Debug, PartialEq, Eq)]
pub struct Metal {
    pub albedo: Vec3,
    pub fuzz: Scalar,
}

/// A transparent surface that reflects and refracts.
#[derive(Clone, Copy, Debug, PartialEq, Eq)]
pub struct Dielectric {
    pub refraction_index: Scalar,
}

/// The side from which a ray meets the surface of a medium.
#[derive(Clone, Copy, Debug, PartialEq, Eq)]
pub enum Side {
    /// From outside: the ray goes against the surface normal.
    Entering,
    /// From inside: the ray goes along the surface normal.
    Exiting,
}

impl Side {
    /// The normal that points against a ray that meets the surface from
    /// this side, given the surface normal.
    pub open spec fn outward(self, normal: Vec3) -> Vec3 {
        match self {
            Side::Entering => normal,
            Side::Exiting => normal.negated(),
        }
    }

    /// The normal that points against a ray that meets the surface from
    /// this side: the surface normal for a ray that enters, its opposite for
    /// one that exits.
    pub fn outward_normal(self, normal: Vec3) -> (n: Vec3)
        ensures
            n == self.outward(normal),
    {
        match self {
            Side::Entering => normal,
            Side::Exiting => normal.neg(),
        }
    }
}

/// A refracted direction with what decides whether the ray takes it: the
/// reflectance of the surface at the angle of incidence and a uniform random
/// draw from `[0, 1)`.
#[derive(Clone, Copy, Debug, PartialEq, Eq)]
pub struct Refraction {
    pub direction: Vec3,
    pub reflectance: Scalar,
    pub draw: Scalar,
}

/// The ray from `origin` along `direction`, attenuated by `attenuation`.
pub open spec fn scattered(attenuation: Vec3, origin: Vec3, direction: Vec3) -> ScatterRet {
    ScatterRet { attenuation, ray: Ray { origin, direction } }
}

/// The direction a dielectric sends the ray in: the refracted one where
/// there is one and the draw is at least the reflectance, else the reflected
/// one.
pub open spec fn dielectric_direction(reflected: Vec3, refracted: Option<Refraction>) -> Vec3 {
    match refracted {
        Some(r) => if r.draw.at_least(r.reflectance) {
            r.direction
        } else {
            reflected
        },
        None => reflected,
    }
}

/// Whether a sample point with the given squared length lies inside the unit
/// sphere: the squared length is less than one. A rejection sampler keeps
/// the first such point.
pub fn inside_unit_sphere(squared_length: Scalar) -> (r: bool)
    ensures
        r == squared_length.less(Scalar::of(ONE_BITS)),
{
    squared_length.lt(Scalar::one())
}

/// The side from which a ray meets a surface, given the dot product of the
/// ray's direction and the surface normal: exiting where the product is
/// positive, entering otherwise.
pub fn side_of(direction_dot_normal: Scalar) -> (s: Side)
    ensures
        s == if direction_dot_normal.positive() {
            Side::Exiting
        } else {
            Side::Entering
        },
{
    if direction_dot_normal.is_positive() {
        Side::Exiting
    } else {
        Side::Entering
    }
}

/// Whether a ray is refracted, given the discriminant of the refraction
/// formula: it is where the discriminant is positive; otherwise the
/// reflection is total.
pub fn refracts(discriminant: Scalar) -> (r: bool)
    ensures
        r == discriminant.positive(),
{
    discriminant.is_positive()
}

impl Lambertian {
    /// Scatters a ray that hit the surface at `hit_point` along `direction`,
    /// the direction sampled around the surface normal. A diffuse surface
    /// never absorbs, and attenuates by its albedo.
    pub fn scatter(&self, hit_point: Vec3, direction: Vec3) -> (r: Option<ScatterRet>)
        ensures
            r == Some(scattered(self.albedo, hit_point, direction)),
    {
        Some(ScatterRet { attenuation: self.albedo, ray: Ray::new(hit_point, direction) })
    }
}

impl Metal {
    /// Scatters a ray that hit the surface at `hit_point` along `direction`,
    /// the perturbed mirror direction. A metal always scatters, also where
    /// the direction points into the surface, and attenuates by its albedo.
    pub fn scatter(&self, hit_point: Vec3, direction: Vec3) -> (r: Option<ScatterRet>)
        ensures
            r == Some(scattered(self.albedo, hit_point, direction)),
    {
        Some(ScatterRet { attenuation: self.albedo, ray: Ray::new(hit_point, direction) })
    }
}

impl Dielectric {
    /// Scatters a ray that hit the surface at `hit_point`. `reflected` is
    /// the mirror direction; `refracted` is absent where the reflection is
    /// total. The ray is refracted where it can be and the draw is at least
    /// the reflectance, and reflected otherwise. A dielectric absorbs
    /// nothing: the attenuation is white.
    pub fn scatter(&self, hit_point: Vec3, reflected: Vec3, refracted: Option<Refraction>) -> (r:
        Option<ScatterRet>)
        ensures
            r == Some(
                scattered(Vec3::white(), hit_point, dielectric_direction(reflected, refracted)),
            ),
    {
        let attenuation = Vec3::new(Scalar::one(), Scalar::one(), Scalar::one());
        match refracted {
            Some(refraction) => {
                if refraction.draw.ge(refraction.reflectance) {
                    return Some(
                        ScatterRet { attenuation, ray: Ray::new(hit_point, refraction.direction) },
                    );
                }
            },
            None => {},
        }
        Some(ScatterRet { attenuation, ray: Ray::new(hit_point, reflected) })
    }
}

} // verus!
