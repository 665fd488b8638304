//! Axis-aligned bounding boxes.

use vstd::prelude::*;
use crate::scalar::{Scalar, lemma_lesser_greater};
use crate::vector::{Vec3, lemma_new_components};

verus! {

/// A box with its sides along the axes, given by its two extreme corners.
#[derive(Clone, Copy, Debug)]
pub struct AxisAlignedBoundingBox {
    minimum: Vec3,
    maximum: Vec3,
}

/// The interval of ray parameters `[lo, hi]` that is left of `[t_min, t_max]`
/// after one axis has been taken into account, where the ray meets the
/// two planes of that axis at the parameters `a` and `b`.
pub open spec fn narrowed(span: (Scalar, Scalar), a: Scalar, b: Scalar) -> (Scalar, Scalar) {
    (
        Scalar::greater(Scalar::lesser(a, b), span.0),
        Scalar::lesser(Scalar::greater(a, b), span.1),
    )
}

impl AxisAlignedBoundingBox {
    /// The corner with the smallest coordinates.
    pub closed spec fn low(&self) -> Vec3 {
        self.minimum
    }

    /// The corner with the largest coordinates.
    pub closed spec fn high(&self) -> Vec3 {
        self.maximum
    }

    /// The box between the two corners, in contracts.
    pub closed spec fn new_spec(minimum: Vec3, maximum: Vec3) -> AxisAlignedBoundingBox {
        AxisAlignedBoundingBox { minimum, maximum }
    }

    /// The union of two boxes: the least low corner and the greatest high
    /// corner, axis by axis.
    pub open spec fn joined(a: AxisAlignedBoundingBox, b: AxisAlignedBoundingBox) -> AxisAlignedBoundingBox {
        Self::new_spec(
            Vec3::new_spec(
                Scalar::lesser(a.low()@[0], b.low()@[0]),
                Scalar::lesser(a.low()@[1], b.low()@[1]),
                Scalar::lesser(a.low()@[2], b.low()@[2]),
            ),
            Vec3::new_spec(
                Scalar::greater(a.high()@[0], b.high()@[0]),
                Scalar::greater(a.high()@[1], b.high()@[1]),
                Scalar::greater(a.high()@[2], b.high()@[2]),
            ),
        )
    }

    /// Whether on axis `a` the low corner is at most the high corner.
    pub open spec fn ordered_on(&self, a: int) -> bool {
        self.low()@[a].at_most(self.high()@[a])
    }

    /// A box is well formed when on every axis its low corner is at most
    /// its high corner. No coordinate of such a box is a NaN.
    pub open spec fn well_formed(&self) -> bool {
        self.ordered_on(0) && self.ordered_on(1) && self.ordered_on(2)
    }

    /// Whether the coordinate `c` lies within the box on axis `a`.
    pub open spec fn spans(&self, a: int, c: Scalar) -> bool {
        self.low()@[a].at_most(c) && c.at_most(self.high()@[a])
    }

    /// Whether both extremes of `other` on axis `a` lie within this box.
    pub open spec fn contains_on(&self, other: AxisAlignedBoundingBox, a: int) -> bool {
        self.spans(a, other.low()@[a]) && self.spans(a, other.high()@[a])
    }

    /// Whether every corner of `other` lies within this box on every axis.
    /// A corner of a box takes each coordinate from its low or from its
    /// high corner.
    pub open spec fn contains_box(&self, other: AxisAlignedBoundingBox) -> bool {
        self.contains_on(other, 0) && self.contains_on(other, 1) && self.contains_on(other, 2)
    }

    /// Whether `r` is on axis `i` the union of `a` and `b`.
    pub open spec fn union_on(a: AxisAlignedBoundingBox, b: AxisAlignedBoundingBox, r: AxisAlignedBoundingBox, i: int) -> bool {
        r.low()@[i] == Scalar::lesser(a.low()@[i], b.low()@[i]) && r.high()@[i] == Scalar::greater(
            a.high()@[i],
            b.high()@[i],
        )
    }

    /// Whether `r` is the union of two boxes: the least low corner and the
    /// greatest high corner, axis by axis.
    pub open spec fn union_of(a: AxisAlignedBoundingBox, b: AxisAlignedBoundingBox, r: AxisAlignedBoundingBox) -> bool {
        Self::union_on(a, b, r, 0) && Self::union_on(a, b, r, 1) && Self::union_on(a, b, r, 2)
    }

    /// Whether two boxes have equal numbers on axis `i`, in both corners.
    pub open spec fn alike_on(&self, other: AxisAlignedBoundingBox, i: int) -> bool {
        self.low()@[i].same_number(other.low()@[i]) && self.high()@[i].same_number(other.high()@[i])
    }

    /// Whether two boxes are the same box: whether their corners hold
    /// equal numbers. The two zeros are equal numbers.
    pub open spec fn alike(&self, other: AxisAlignedBoundingBox) -> bool {
        self.alike_on(other, 0) && self.alike_on(other, 1) && self.alike_on(other, 2)
    }

    /// The box between the two corners.
    #[verifier::when_used_as_spec(new_spec)]
    pub fn new(minimum: Vec3, maximum: Vec3) -> (b: Self)
        ensures
            b.low() == minimum,
            b.high() == maximum,
            b == Self::new_spec(minimum, maximum),
    {
        Self { minimum, maximum }
    }

    /// The corner with the smallest coordinates.
    pub fn min(&self) -> (v: &Vec3)
        ensures
            *v == self.low(),
    {
        &self.minimum
    }

    /// The corner with the largest coordinates.
    pub fn max(&self) -> (v: &Vec3)
        ensures
            *v == self.high(),
    {
        &self.maximum
    }

    /// The slab test. The ray meets the two planes of the box on the first
    /// axis at the parameters `x.0` and `x.1`, and so for `y` and `z`; a
    /// parameter may be infinite where the ray runs along the planes. The
    /// ray crosses the box within `[t_min, t_max]` when that interval,
    /// narrowed by all three axes, is not empty.
    pub fn hit(x: (Scalar, Scalar), y: (Scalar, Scalar), z: (Scalar, Scalar), t_min: Scalar, t_max: Scalar) -> (crossed: bool)
        ensures
            crossed == ({
                let span = narrowed(narrowed(narrowed((t_min, t_max), x.0, x.1), y.0, y.1), z.0, z.1);
                span.0.precedes(span.1)
            }),
    {
        let lo = x.0.min(x.1).max(t_min);
        let hi = x.0.max(x.1).min(t_max);
        let lo = y.0.min(y.1).max(lo);
        let hi = y.0.max(y.1).min(hi);
        let lo = z.0.min(z.1).max(lo);
        let hi = z.0.max(z.1).min(hi);
        hi.gt(&lo)
    }

    /// The smallest box that holds both boxes.
    pub fn surrounding_box(&self, other: &AxisAlignedBoundingBox) -> (r: AxisAlignedBoundingBox)
        ensures
            r == Self::joined(*self, *other),
            Self::union_of(*self, *other, r),
            self.well_formed() && other.well_formed() ==> r.well_formed() && r.contains_box(*self)
                && r.contains_box(*other),
    {
        let small = Vec3::new(
            self.minimum.x().min(other.minimum.x()),
            self.minimum.y().min(other.minimum.y()),
            self.minimum.z().min(other.minimum.z()),
        );
        let big = Vec3::new(
            self.maximum.x().max(other.maximum.x()),
            self.maximum.y().max(other.maximum.y()),
            self.maximum.z().max(other.maximum.z()),
        );
        let r = AxisAlignedBoundingBox::new(small, big);
        proof {
            lemma_joined(*self, *other);
            if self.well_formed() && other.well_formed() {
                lemma_union_contains(*self, *other, r);
            }
        }
        r
    }
}

/// `joined` is the union, axis by axis.
pub proof fn lemma_joined(a: AxisAlignedBoundingBox, b: AxisAlignedBoundingBox)
    ensures
        AxisAlignedBoundingBox::union_of(a, b, AxisAlignedBoundingBox::joined(a, b)),
{
    broadcast use lemma_new_components;
}

/// The union of two well-formed boxes is well formed and contains both:
/// every corner of either lies within it on every axis.
pub proof fn lemma_union_contains(a: AxisAlignedBoundingBox, b: AxisAlignedBoundingBox, r: AxisAlignedBoundingBox)
    requires
        a.well_formed(),
        b.well_formed(),
        AxisAlignedBoundingBox::union_of(a, b, r),
    ensures
        r.well_formed(),
        r.contains_box(a),
        r.contains_box(b),
{
    lemma_union_axis(a, b, r, 0);
    lemma_union_axis(a, b, r, 1);
    lemma_union_axis(a, b, r, 2);
}

proof fn lemma_union_axis(a: AxisAlignedBoundingBox, b: AxisAlignedBoundingBox, r: AxisAlignedBoundingBox, i: int)
    requires
        a.ordered_on(i),
        b.ordered_on(i),
        AxisAlignedBoundingBox::union_on(a, b, r, i),
    ensures
        r.ordered_on(i),
        r.contains_on(a, i),
        r.contains_on(b, i),
{
    lemma_lesser_greater(a.low()@[i], b.low()@[i]);
    lemma_lesser_greater(a.high()@[i], b.high()@[i]);
}

/// The union of two well-formed boxes does not depend on their order.
pub proof fn lemma_union_commutes(a: AxisAlignedBoundingBox, b: AxisAlignedBoundingBox)
    requires
        a.well_formed(),
        b.well_formed(),
    ensures
        AxisAlignedBoundingBox::joined(a, b).alike(AxisAlignedBoundingBox::joined(b, a)),
{
    lemma_joined(a, b);
    lemma_joined(b, a);
}

/// The union of three well-formed boxes does not depend on which two are
/// joined first, so that a union can be gathered box by box.
pub proof fn lemma_union_associates(a: AxisAlignedBoundingBox, b: AxisAlignedBoundingBox, c: AxisAlignedBoundingBox)
    requires
        a.well_formed(),
        b.well_formed(),
        c.well_formed(),
    ensures
        AxisAlignedBoundingBox::joined(AxisAlignedBoundingBox::joined(a, b), c).alike(
            AxisAlignedBoundingBox::joined(a, AxisAlignedBoundingBox::joined(b, c)),
        ),
{
    let ab = AxisAlignedBoundingBox::joined(a, b);
    let bc = AxisAlignedBoundingBox::joined(b, c);
    lemma_joined(a, b);
    lemma_joined(b, c);
    lemma_joined(ab, c);
    lemma_joined(a, bc);
}

} // verus!
