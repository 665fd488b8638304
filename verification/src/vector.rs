//! Three-component vectors: points, directions and colours.

use vstd::prelude::*;
use crate::scalar::Scalar;

verus! {

/// The pattern of `1e-8`, below which a component counts as zero.
pub const NEAR_ZERO_BITS: u64 = 0x3e45_798e_e230_8c3a;

/// A colour: red, green and blue in the three components.
pub type Color = Vec3;

/// A point in space.
pub type Point3 = Vec3;

/// Three doubles, read as a point, a direction or an RGB colour.
#[derive(Clone, Copy, Debug)]
pub struct Vec3 {
    x: Scalar,
    y: Scalar,
    z: Scalar,
}

impl Vec3 {
    /// The three components in order.
    pub closed spec fn view(&self) -> Seq<Scalar> {
        seq![self.x, self.y, self.z]
    }

    /// The vector with the given components, in contracts.
    pub closed spec fn new_spec(c_0: Scalar, c_1: Scalar, c_2: Scalar) -> Vec3 {
        Vec3 { x: c_0, y: c_1, z: c_2 }
    }

    /// Whether each component is smaller in absolute value than `1e-8`.
    pub open spec fn tiny(&self) -> bool {
        &&& !self@[0].nan() && self@[0].magnitude() < NEAR_ZERO_BITS
        &&& !self@[1].nan() && self@[1].magnitude() < NEAR_ZERO_BITS
        &&& !self@[2].nan() && self@[2].magnitude() < NEAR_ZERO_BITS
    }

    /// The vector with the given components.
    #[verifier::when_used_as_spec(new_spec)]
    pub fn new(c_0: Scalar, c_1: Scalar, c_2: Scalar) -> (v: Self)
        ensures
            v@ == seq![c_0, c_1, c_2],
            v == Vec3::new_spec(c_0, c_1, c_2),
    {
        Self { x: c_0, y: c_1, z: c_2 }
    }

    /// The first component.
    pub fn x(&self) -> (r: Scalar)
        ensures
            r == self@[0],
    {
        self.x
    }

    /// The first component, read as red.
    pub fn r(&self) -> (r: Scalar)
        ensures
            r == self@[0],
    {
        self.x()
    }

    /// The second component.
    pub fn y(&self) -> (r: Scalar)
        ensures
            r == self@[1],
    {
        self.y
    }

    /// The second component, read as green.
    pub fn g(&self) -> (r: Scalar)
        ensures
            r == self@[1],
    {
        self.y()
    }

    /// The third component.
    pub fn z(&self) -> (r: Scalar)
        ensures
            r == self@[2],
    {
        self.z
    }

    /// The third component, read as blue.
    pub fn b(&self) -> (r: Scalar)
        ensures
            r == self@[2],
    {
        self.z()
    }

    /// The component at `idx`.
    pub fn get(&self, idx: usize) -> (r: Scalar)
        requires
            idx < 3,
        ensures
            r == self@[idx as int],
    {
        if idx == 0 {
            self.x
        } else if idx == 1 {
            self.y
        } else {
            self.z
        }
    }

    /// Replaces the component at `idx` and leaves the other two.
    pub fn set(&mut self, idx: usize, val: Scalar)
        requires
            idx < 3,
        ensures
            final(self)@ == old(self)@.update(idx as int, val),
    {
        if idx == 0 {
            self.x = val;
        } else if idx == 1 {
            self.y = val;
        } else {
            self.z = val;
        }
        assert(self@ =~= old(self)@.update(idx as int, val));
    }

    /// The vector with each component's sign flipped, in contracts.
    pub open spec fn flipped(&self) -> Vec3 {
        Vec3::new_spec(self@[0].flipped(), self@[1].flipped(), self@[2].flipped())
    }

    /// The vector with each component's sign flipped.
    pub fn neg(&self) -> (v: Self)
        ensures
            v == self.flipped(),
    {
        Vec3::new(self.x.neg(), self.y.neg(), self.z.neg())
    }

    /// Whether the vector is so close to zero in every component that it
    /// gives no direction.
    pub fn near_zero(&self) -> (r: bool)
        ensures
            r == self.tiny(),
    {
        let s = Scalar::from_bits(NEAR_ZERO_BITS);
        self.x.abs().lt(&s) && self.y.abs().lt(&s) && self.z.abs().lt(&s)
    }
}

/// The components of the vector made of three numbers are those numbers.
pub broadcast proof fn lemma_new_components(c_0: Scalar, c_1: Scalar, c_2: Scalar)
    ensures
        (#[trigger] Vec3::new_spec(c_0, c_1, c_2))@ == seq![c_0, c_1, c_2],
{
}

impl Default for Vec3 {
    /// The zero vector.
    fn default() -> (v: Self)
        ensures
            v@ == seq![Scalar::from_bits_spec(0), Scalar::from_bits_spec(0), Scalar::from_bits_spec(0)],
            v == Vec3::new_spec(Scalar::from_bits_spec(0), Scalar::from_bits_spec(0), Scalar::from_bits_spec(0)),
    {
        Vec3::new(Scalar::zero(), Scalar::zero(), Scalar::zero())
    }
}

} // verus!
