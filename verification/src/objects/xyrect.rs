//! Rectangles in a plane of constant `z`.

use vstd::prelude::*;
use crate::material::Material;
use crate::scalar::Scalar;

verus! {

/// The rectangle from `x0` to `x1` and from `y0` to `y1` in the plane
/// `z = k`.
#[derive(Clone)]
pub struct XyRect {
    material: Material,
    x0: Scalar,
    x1: Scalar,
    y0: Scalar,
    y1: Scalar,
    k: Scalar,
}

impl XyRect {
    /// The sides: `x0`, `x1`, `y0`, `y1`.
    pub closed spec fn sides(&self) -> (Scalar, Scalar, Scalar, Scalar) {
        (self.x0, self.x1, self.y0, self.y1)
    }

    /// The plane's `z`.
    pub closed spec fn plane(&self) -> Scalar {
        self.k
    }

    /// The material.
    pub closed spec fn material_spec(&self) -> Material {
        self.material
    }

    /// Whether the point `(x, y)` of the plane counts as on the rectangle:
    /// whether it lies beyond none of the four sides. A NaN counts.
    pub open spec fn holds(&self, x: Scalar, y: Scalar) -> bool {
        !(x.precedes(self.sides().0) || self.sides().1.precedes(x) || y.precedes(self.sides().2)
            || self.sides().3.precedes(y))
    }

    /// The rectangle with the given sides in the plane `z = k`.
    pub fn new(x0: Scalar, x1: Scalar, y0: Scalar, y1: Scalar, k: Scalar, material: Material) -> (r: Self)
        ensures
            r.sides() == (x0, x1, y0, y1),
            r.plane() == k,
            r.material_spec() == material,
    {
        Self { material, x0, x1, y0, y1, k }
    }

    /// The lower side in `x`.
    pub fn x0(&self) -> (r: Scalar)
        ensures
            r == self.sides().0,
    {
        self.x0
    }

    /// The upper side in `x`.
    pub fn x1(&self) -> (r: Scalar)
        ensures
            r == self.sides().1,
    {
        self.x1
    }

    /// The lower side in `y`.
    pub fn y0(&self) -> (r: Scalar)
        ensures
            r == self.sides().2,
    {
        self.y0
    }

    /// The upper side in `y`.
    pub fn y1(&self) -> (r: Scalar)
        ensures
            r == self.sides().3,
    {
        self.y1
    }

    /// The plane's `z`.
    pub fn k(&self) -> (r: Scalar)
        ensures
            r == self.plane(),
    {
        self.k
    }

    /// The material.
    pub fn material(&self) -> (m: &Material)
        ensures
            *m == self.material_spec(),
    {
        &self.material
    }

    /// Tells whether the point `(x, y)`, at which a ray crosses the plane,
    /// is on the rectangle.
    pub fn contains(&self, x: Scalar, y: Scalar) -> (r: bool)
        ensures
            r == self.holds(x, y),
    {
        !(x.lt(&self.x0) || x.gt(&self.x1) || y.lt(&self.y0) || y.gt(&self.y1))
    }

    /// Puts the rectangle at new sides in a new plane.
    pub fn relocate(&mut self, x0: Scalar, x1: Scalar, y0: Scalar, y1: Scalar, k: Scalar)
        ensures
            final(self).sides() == (x0, x1, y0, y1),
            final(self).plane() == k,
            final(self).material_spec() == old(self).material_spec(),
    {
        self.x0 = x0;
        self.x1 = x1;
        self.y0 = y0;
        self.y1 = y1;
        self.k = k;
    }
}

} // verus!
