//! The bare record of a hit: where, which way the surface faces, how far.

use vstd::prelude::*;
use crate::scalar::Scalar;
use crate::vector::Vec3;

verus! {

/// The place where a ray met a surface.
#[derive(Clone, Copy, Debug)]
pub struct Surface {
    /// The point hit.
    pub point: Vec3,
    /// The surface normal there.
    pub normal: Vec3,
    /// The ray parameter of the hit.
    pub t: Scalar,
}

impl Surface {
    /// The record with the given parts.
    pub fn new(point: Vec3, normal: Vec3, t: Scalar) -> (s: Self)
        ensures
            s == (Surface { point, normal, t }),
    {
        Self { point, normal, t }
    }
}

impl Default for Surface {
    /// A hit at the origin, at parameter zero, with a zero normal.
    fn default() -> (s: Self)
        ensures
            s.point@ == seq![Scalar::from_bits_spec(0), Scalar::from_bits_spec(0), Scalar::from_bits_spec(0)],
            s.normal@ == s.point@,
            s.t == Scalar::from_bits_spec(0),
    {
        Self { point: Vec3::default(), normal: Vec3::default(), t: Scalar::zero() }
    }
}

} // verus!
