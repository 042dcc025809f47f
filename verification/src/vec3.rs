//! Triples of scalars: points, directions and colors.

use vstd::prelude::*;
use crate::scalar::Scalar;
use crate::scalar::ZERO_BITS;
use crate::scalar::ONE_BITS;

verus! {

/// Three scalars, read as a point or direction `(x, y, z)` or as a color
/// `(r, g, b)`.
#[derive(Clone, Copy, Debug, PartialEq, Eq)]
pub struct Vec3 {
    pub e: [Scalar; 3],
}

impl Vec3 {
    /// The vector with the given components.
    pub open spec fn of(e0: Scalar, e1: Scalar, e2: Scalar) -> Vec3 {
        Vec3 { e: [e0, e1, e2] }
    }

    /// The color black, `(0, 0, 0)`.
    pub open spec fn black() -> Vec3 {
        Vec3::of(Scalar::of(ZERO_BITS), Scalar::of(ZERO_BITS), Scalar::of(ZERO_BITS))
    }

    /// The color white, `(1, 1, 1)`.
    pub open spec fn white() -> Vec3 {
        Vec3::of(Scalar::of(ONE_BITS), Scalar::of(ONE_BITS), Scalar::of(ONE_BITS))
    }

    /// `-self`: the vector with each component negated.
    pub open spec fn negated(self) -> Vec3 {
        Vec3::of(self.e[0].negated(), self.e[1].negated(), self.e[2].negated())
    }

    /// The vector with the given components.
    pub fn new(e0: Scalar, e1: Scalar, e2: Scalar) -> (v: Vec3)
        ensures
            v == Vec3::of(e0, e1, e2),
            v.e[0] == e0,
            v.e[1] == e1,
            v.e[2] == e2,
    {
        Vec3 { e: [e0, e1, e2] }
    }

    /// The first component, read as a coordinate.
    pub fn x(&self) -> (r: Scalar)
        ensures
            r == self.e[0],
    {
        self.e[0]
    }

    /// The second component, read as a coordinate.
    pub fn y(&self) -> (r: Scalar)
        ensures
            r == self.e[1],
    {
        self.e[1]
    }

    /// The third component, read as a coordinate.
    pub fn z(&self) -> (r: Scalar)
        ensures
            r == self.e[2],
    {
        self.e[2]
    }

    /// The first component, read as the red channel.
    pub fn r(&self) -> (r: Scalar)
        ensures
            r == self.e[0],
    {
        self.e[0]
    }

    /// The second component, read as the green channel.
    pub fn g(&self) -> (r: Scalar)
        ensures
            r == self.e[1],
    {
        self.e[1]
    }

    /// The third component, read as the blue channel.
    pub fn b(&self) -> (r: Scalar)
        ensures
            r == self.e[2],
    {
        self.e[2]
    }
}

impl Vec3 {
    /// The component at `idx`, counted from 0.
    pub fn index(&self, idx: usize) -> (r: &Scalar)
        requires
            idx < 3,
        ensures
            *r == self.e[idx as int],
    {
        &self.e[idx]
    }

    /// `-self`.
    pub fn neg(self) -> (v: Vec3)
        ensures
            v == self.negated(),
    {
        Vec3 { e: [self.e[0].neg(), self.e[1].neg(), self.e[2].neg()] }
    }
}

impl Default for Vec3 {
    /// The vector `(0, 0, 0)`.
    fn default() -> (v: Vec3)
        ensures
            v == Vec3::black(),
    {
        Vec3 { e: [Scalar::zero(), Scalar::zero(), Scalar::zero()] }
    }
}

} // verus!
