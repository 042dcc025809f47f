//! The discrete core of a recursive Monte Carlo path tracer.
//!
//! A path tracer computes with reals: it solves the quadratic of a ray and a
//! sphere, reflects and refracts directions, blends and multiplies colors.
//! Between these computations it decides: which root of the quadratic is
//! the hit, which primitive of a scene is hit first, whether a ray is
//! reflected or refracted, when a path ends and with what. This crate holds
//! those decisions, the data they are made on, and the text of the image
//! that is written in the end. Each decision is a function with a contract
//! that says exactly what is decided, verified for every input.
//!
//! The arithmetic on reals is the caller's. Reals cross the border as
//! [`scalar::Scalar`]s, single-precision values held by their bit pattern,
//! which this crate orders, negates and truncates but never adds or
//! multiplies.
//!
//! - [`scalar`]: reals by bit pattern; their order, negation and integer part.
//! - [`vec3`] and [`ray`]: points, directions, colors and rays.
//! - [`hittable`]: the root at which a primitive is hit, and the nearest hit
//!   of a scene.
//! - [`material`]: diffuse, metallic and dielectric surfaces, and the
//!   scattered ray each sends on.
//! - [`trace`]: the light-transport recursion, step by step, with its depth
//!   cutoff.
//! - [`ppm`]: the text of a plain PPM image.

pub mod scalar;
pub mod vec3;
pub mod ray;
pub mod hittable;
pub mod material;
pub mod trace;
pub mod ppm;
