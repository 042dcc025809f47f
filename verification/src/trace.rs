//! The light-transport recursion, one step at a time.
//!
//! Tracing a ray alternates between work on reals, done by the caller
//! (intersecting the scene, scattering, blending the sky, multiplying
//! colors), and the decisions made here: when a path ends, what it ends
//! with, and which ray is traced next at which depth.

use vstd::prelude::*;
use crate::scalar::Scalar;
use crate::scalar::INFINITY_BITS;
use crate::scalar::ONE_BITS;
use crate::vec3::Vec3;
use crate::ray::Ray;
use crate::material::ScatterRet;

verus! {

/// The depth at which a path is cut off.
pub const MAX_DEPTH: i32 = 50;

/// Bit pattern of `0.001`, the ray parameter below which an intersection is
/// taken for the surface the ray has just left.
pub const T_MIN_BITS: u32 = 0x3a83_126f;

/// Bit pattern of `0.5`, the red of the sky at the zenith.
pub const SKY_RED_BITS: u32 = 0x3f00_0000;

/// Bit pattern of `0.7`, the green of the sky at the zenith.
pub const SKY_GREEN_BITS: u32 = 0x3f33_3333;

/// Bit pattern of `1.0`, the blue of the sky at the zenith.
pub const SKY_BLUE_BITS: u32 = ONE_BITS;

/// What became of a ray in the scene.
#[derive(Clone, Copy, Debug, PartialEq, Eq)]
pub enum Event {
    /// The ray hit nothing.
    Miss,
    /// The ray hit a surface that absorbed it.
    Absorbed,
    /// The ray hit a surface that scattered it.
    Scattered(ScatterRet),
}

/// What the radiance along a ray is.
#[derive(Clone, Copy, Debug, PartialEq, Eq)]
pub enum Step {
    /// The given color.
    Done(Vec3),
    /// The color of the background in the direction of the ray: `horizon`
    /// blended linearly towards `zenith` as the normalized direction rises
    /// from straight down to straight up.
    Sky { horizon: Vec3, zenith: Vec3 },
    /// The radiance along `ray`, traced at `depth`, multiplied channel by
    /// channel by `attenuation`.
    Bounce { attenuation: Vec3, ray: Ray, depth: i32 },
}

/// The color of the sky at the zenith, `(0.5, 0.7, 1.0)`.
pub open spec fn sky_blue() -> Vec3 {
    Vec3::of(Scalar::of(SKY_RED_BITS), Scalar::of(SKY_GREEN_BITS), Scalar::of(SKY_BLUE_BITS))
}

/// The background: white at the horizon, sky blue at the zenith.
pub open spec fn sky() -> Step {
    Step::Sky { horizon: Vec3::white(), zenith: sky_blue() }
}

/// The radiance along a ray traced at `depth`, where that is decided before
/// the scene is asked: black at the cutoff.
pub open spec fn cut_off(depth: int) -> Option<Vec3> {
    if depth >= MAX_DEPTH {
        Some(Vec3::black())
    } else {
        None
    }
}

/// The radiance along a ray traced at `depth` to which `event` happened:
/// black at the cutoff, whatever happened; else the background for a miss,
/// black for an absorbed ray, and for a scattered ray the attenuated
/// radiance of the scattered ray one level deeper.
pub open spec fn step(depth: int, event: Event) -> Step {
    if depth >= MAX_DEPTH {
        Step::Done(Vec3::black())
    } else {
        match event {
            Event::Miss => sky(),
            Event::Absorbed => Step::Done(Vec3::black()),
            Event::Scattered(s) => Step::Bounce {
                attenuation: s.attenuation,
                ray: s.ray,
                depth: (depth + 1) as i32,
            },
        }
    }
}

/// The number of rays traced on a path that starts at `depth` and meets
/// `events` in turn, as far as they reach.
pub open spec fn rays_traced(depth: int, events: Seq<Event>) -> nat
    decreases events.len(),
{
    if events.len() == 0 {
        0
    } else {
        match step(depth, events[0]) {
            Step::Bounce { depth: deeper, .. } => 1 + rays_traced(deeper as int, events.skip(1)),
            _ => 1,
        }
    }
}

/// The interval of the ray parameter in which a traced ray is intersected
/// with the scene: from `0.001`, exclusive, to infinity, exclusive.
pub fn hit_interval() -> (r: (Scalar, Scalar))
    ensures
        r.0 == Scalar::of(T_MIN_BITS),
        r.1 == Scalar::of(INFINITY_BITS),
{
    (Scalar::from_bits(T_MIN_BITS), Scalar::infinity())
}

/// The radiance along a ray traced at `depth`, where it is known before the
/// scene is asked: at the cutoff depth and beyond, the radiance is black.
pub fn cutoff(depth: i32) -> (r: Option<Vec3>)
    ensures
        r == cut_off(depth as int),
        r is Some <==> depth >= MAX_DEPTH,
        r matches Some(radiance) ==> forall|event: Event|
            step(depth as int, event) == Step::Done(radiance),
{
    if depth >= MAX_DEPTH {
        Some(Vec3::default())
    } else {
        None
    }
}

/// The radiance along a ray traced at `depth` to which `event` happened.
pub fn advance(depth: i32, event: Event) -> (r: Step)
    ensures
        r == step(depth as int, event),
        depth >= MAX_DEPTH ==> r == Step::Done(Vec3::black()),
        r matches Step::Bounce { depth: deeper, .. } ==> deeper == depth + 1 && deeper <= MAX_DEPTH,
{
    if depth >= MAX_DEPTH {
        return Step::Done(Vec3::default());
    }
    match event {
        Event::Miss => Step::Sky {
            horizon: Vec3::new(Scalar::one(), Scalar::one(), Scalar::one()),
            zenith: Vec3::new(
                Scalar::from_bits(SKY_RED_BITS),
                Scalar::from_bits(SKY_GREEN_BITS),
                Scalar::from_bits(SKY_BLUE_BITS),
            ),
        },
        Event::Absorbed => Step::Done(Vec3::default()),
        Event::Scattered(s) => Step::Bounce {
            attenuation: s.attenuation,
            ray: s.ray,
            depth: depth + 1,
        },
    }
}

/// At the cutoff depth and beyond, the radiance is black whatever the scene
/// holds.
pub proof fn lemma_cutoff_is_black(depth: int, event: Event)
    requires
        depth >= MAX_DEPTH,
    ensures
        step(depth, event) == Step::Done(Vec3::black()),
        cut_off(depth) == Some(Vec3::black()),
{
}

/// A path ends: one that starts at `depth`, at or below the cutoff, traces
/// at most one ray for each level up to the cutoff and one at the cutoff,
/// whatever it meets; one that starts beyond the cutoff traces at most one.
pub proof fn lemma_path_is_bounded(depth: int, events: Seq<Event>)
    requires
        i32::MIN <= depth <= i32::MAX,
    ensures
        depth <= MAX_DEPTH ==> rays_traced(depth, events) <= MAX_DEPTH - depth + 1,
        depth > MAX_DEPTH ==> rays_traced(depth, events) <= 1,
    decreases events.len(),
{
    if events.len() > 0 {
        match step(depth, events[0]) {
            Step::Bounce { depth: deeper, .. } => {
                lemma_path_is_bounded(deeper as int, events.skip(1));
            },
            _ => {},
        }
    }
}

} // verus!
