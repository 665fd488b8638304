//! Spheres.

use vstd::prelude::*;
use std::sync::Arc;
use crate::material::{Material, MaterialType};
use crate::scalar::{Scalar, ONE_BITS};
use crate::texture::{SolidColor, Texture};
use crate::vector::Vec3;

verus! {

/// Whether `t` counts as lying between `t_min` and `t_max`: whether it is
/// neither less than the one nor greater than the other. A NaN counts.
pub open spec fn admitted(t: Scalar, t_min: Scalar, t_max: Scalar) -> bool {
    !(t.precedes(t_min) || t_max.precedes(t))
}

/// The root at which a ray meets a sphere, where the quadratic for their
/// meeting has the given discriminant and the roots `near` and `far`:
/// none where the discriminant is negative; else the near root where it
/// lies between `t_min` and `t_max`; else the far root where that does;
/// else none.
pub open spec fn chosen_root(discriminant: Scalar, near: Scalar, far: Scalar, t_min: Scalar, t_max: Scalar) -> Option<Scalar> {
    if discriminant.precedes(Scalar::from_bits_spec(0)) {
        None
    } else if admitted(near, t_min, t_max) {
        Some(near)
    } else if admitted(far, t_min, t_max) {
        Some(far)
    } else {
        None
    }
}

/// Tells whether `t` lies between `t_min` and `t_max`.
pub fn in_range(t: Scalar, t_min: Scalar, t_max: Scalar) -> (r: bool)
    ensures
        r == admitted(t, t_min, t_max),
{
    !(t.lt(&t_min) || t.gt(&t_max))
}

/// The root at which a ray meets a sphere, if it meets it between `t_min`
/// and `t_max`. `discriminant` is that of the quadratic for their meeting,
/// `near` its smaller and `far` its larger root.
pub fn nearest_root(discriminant: Scalar, near: Scalar, far: Scalar, t_min: Scalar, t_max: Scalar) -> (r: Option<Scalar>)
    ensures
        r == chosen_root(discriminant, near, far, t_min, t_max),
{
    if discriminant.lt(&Scalar::zero()) {
        return None;
    }
    if in_range(near, t_min, t_max) {
        Some(near)
    } else if in_range(far, t_min, t_max) {
        Some(far)
    } else {
        None
    }
}

/// A root that is chosen lies within the interval searched, and none is
/// chosen exactly where the discriminant is negative or both roots lie
/// outside the interval. This holds where no root and no end of the
/// interval is a NaN.
pub proof fn lemma_chosen_root_in_range(discriminant: Scalar, near: Scalar, far: Scalar, t_min: Scalar, t_max: Scalar)
    requires
        !near.nan(),
        !far.nan(),
        !t_min.nan(),
        !t_max.nan(),
    ensures
        chosen_root(discriminant, near, far, t_min, t_max) matches Some(t) ==> t_min.at_most(t) && t.at_most(t_max)
            && (t == near || t == far),
        chosen_root(discriminant, near, far, t_min, t_max) is None <==> discriminant.precedes(
            Scalar::from_bits_spec(0),
        ) || (!(t_min.at_most(near) && near.at_most(t_max)) && !(t_min.at_most(far) && far.at_most(t_max))),
{
}

/// A sphere: centre, radius and material.
#[derive(Clone)]
pub struct Sphere {
    center: Vec3,
    radius: Scalar,
    material: Material,
}

impl Sphere {
    /// The centre.
    pub closed spec fn center_spec(&self) -> Vec3 {
        self.center
    }

    /// The radius.
    pub closed spec fn radius_spec(&self) -> Scalar {
        self.radius
    }

    /// The material.
    pub closed spec fn material_spec(&self) -> Material {
        self.material
    }

    /// The sphere round `center` with the given radius and material.
    pub fn new(center: Vec3, radius: Scalar, material: Material) -> (s: Self)
        ensures
            s.center_spec() == center,
            s.radius_spec() == radius,
            s.material_spec() == material,
    {
        Self { center, radius, material }
    }

    /// The centre.
    pub fn center(&self) -> (c: &Vec3)
        ensures
            *c == self.center_spec(),
    {
        &self.center
    }

    /// Moves the sphere to the centre `center`.
    pub fn set_center(&mut self, center: Vec3)
        ensures
            final(self).center_spec() == center,
            final(self).radius_spec() == old(self).radius_spec(),
            final(self).material_spec() == old(self).material_spec(),
    {
        self.center = center;
    }

    /// The radius.
    pub fn radius(&self) -> (r: Scalar)
        ensures
            r == self.radius_spec(),
    {
        self.radius
    }

    /// The material.
    pub fn material(&self) -> (m: &Material)
        ensures
            *m == self.material_spec(),
    {
        &self.material
    }
}

impl Default for Sphere {
    /// The unit sphere round the origin, diffuse and white.
    fn default() -> (s: Self)
        ensures
            s.center_spec() == Vec3::new_spec(Scalar::from_bits_spec(0), Scalar::from_bits_spec(0), Scalar::from_bits_spec(0)),
            s.radius_spec() == Scalar::from_bits_spec(ONE_BITS),
            s.material_spec().kind() == MaterialType::Lambertian,
            s.material_spec().texture() matches Texture::Solid(c) && c@@ == seq![
                Scalar::from_bits_spec(ONE_BITS),
                Scalar::from_bits_spec(ONE_BITS),
                Scalar::from_bits_spec(ONE_BITS),
            ],
    {
        let white = SolidColor::from_rgb(Scalar::one(), Scalar::one(), Scalar::one());
        Self::new(Vec3::default(), Scalar::one(), Material::new_lambertian(Arc::new(Texture::Solid(white))))
    }
}

} // verus!
