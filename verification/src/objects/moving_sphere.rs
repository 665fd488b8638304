//! Spheres that move during the exposure.

use vstd::prelude::*;
use crate::material::Material;
use crate::scalar::Scalar;
use crate::vector::Vec3;

verus! {

/// A sphere whose centre moves in a straight line from `center0` at
/// `time0` to `center1` at `time1`.
#[derive(Clone)]
pub struct MovingSphere {
    center0: Vec3,
    center1: Vec3,
    time0: Scalar,
    time1: Scalar,
    radius: Scalar,
    material: Material,
}

impl MovingSphere {
    /// The two centres.
    pub closed spec fn centers(&self) -> (Vec3, Vec3) {
        (self.center0, self.center1)
    }

    /// The two moments.
    pub closed spec fn times(&self) -> (Scalar, Scalar) {
        (self.time0, self.time1)
    }

    /// The radius.
    pub closed spec fn radius_spec(&self) -> Scalar {
        self.radius
    }

    /// The material.
    pub closed spec fn material_spec(&self) -> Material {
        self.material
    }

    /// The sphere that moves from `center0` at `time0` to `center1` at
    /// `time1`.
    pub fn new(center0: Vec3, center1: Vec3, time0: Scalar, time1: Scalar, radius: Scalar, material: Material) -> (s: Self)
        ensures
            s.centers() == (center0, center1),
            s.times() == (time0, time1),
            s.radius_spec() == radius,
            s.material_spec() == material,
    {
        Self { center0, center1, time0, time1, radius, material }
    }

    /// The centre at the first moment.
    pub fn center0(&self) -> (c: &Vec3)
        ensures
            *c == self.centers().0,
    {
        &self.center0
    }

    /// The centre at the second moment.
    pub fn center1(&self) -> (c: &Vec3)
        ensures
            *c == self.centers().1,
    {
        &self.center1
    }

    /// The first moment.
    pub fn time0(&self) -> (t: Scalar)
        ensures
            t == self.times().0,
    {
        self.time0
    }

    /// The second moment.
    pub fn time1(&self) -> (t: Scalar)
        ensures
            t == self.times().1,
    {
        self.time1
    }

    /// The radius.
    pub fn radius(&self) -> (r: Scalar)
        ensures
            r == self.radius_spec(),
    {
        self.radius
    }

    /// The material.
    pub fn material(&self) -> (m: &Material)
        ensures
            *m == self.material_spec(),
    {
        &self.material
    }
}

} // verus!
