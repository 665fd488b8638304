//! Random integers.

use vstd::prelude::*;
use crate::material::MaterialType;
use crate::scalar::{Scalar, ONE_BITS};

verus! {

/// Calls `rand::distributions::Uniform::new_inclusive(min, max)` and samples
/// it once from `rand::thread_rng()`. The distribution panics where
/// `min > max`, and hands out integers from `min` to `max`, both included;
/// which one is not known.
#[verifier::external_body]
pub(crate) fn random_int(min: i32, max: i32) -> (r: i32)
    requires
        min <= max,
    ensures
        min <= r <= max,
{
    let range = rand::distributions::Uniform::new_inclusive(min, max);
    rand::distributions::Distribution::sample(&range, &mut rand::thread_rng())
}

/// The pattern of `0.8`: below it a random sphere is diffuse.
pub const DIFFUSE_BELOW_BITS: u64 = 0x3fe9_9999_9999_999a;

/// The pattern of `0.95`: below it a random sphere that is not diffuse is
/// a metal.
pub const METAL_BELOW_BITS: u64 = 0x3fee_6666_6666_6666;

/// The pattern of `0.9`: a random sphere keeps this far, and more, from
/// the large sphere that it might touch.
pub const CLEARANCE_BITS: u64 = 0x3fec_cccc_cccc_cccd;

/// Whether a point drawn from the cube round the origin is to be drawn
/// again, `len2` being the square of its distance from the origin: whether
/// it lies on or outside the unit sphere.
pub fn rejected(len2: Scalar) -> (r: bool)
    ensures
        r == Scalar::from_bits_spec(ONE_BITS).at_most(len2),
{
    len2.ge(&Scalar::one())
}

/// The kind of material of a random sphere, where `choose_mat` was drawn
/// between zero and one: diffuse below `0.8`, metal from there up to
/// `0.95`, and glass from there on.
pub fn choose_material(choose_mat: Scalar) -> (k: MaterialType)
    ensures
        k == if choose_mat.precedes(Scalar::from_bits_spec(DIFFUSE_BELOW_BITS)) {
            MaterialType::Lambertian
        } else if choose_mat.precedes(Scalar::from_bits_spec(METAL_BELOW_BITS)) {
            MaterialType::Metal
        } else {
            MaterialType::DiElectric
        },
{
    if choose_mat.lt(&Scalar::from_bits(DIFFUSE_BELOW_BITS)) {
        MaterialType::Lambertian
    } else if choose_mat.lt(&Scalar::from_bits(METAL_BELOW_BITS)) {
        MaterialType::Metal
    } else {
        MaterialType::DiElectric
    }
}

/// Whether a random sphere may stand where it was drawn, `distance` being
/// how far its centre is from the centre of the large sphere at
/// `(4, 0.2, 0)`: whether that is more than `0.9`.
pub fn keeps_clear(distance: Scalar) -> (r: bool)
    ensures
        r == Scalar::from_bits_spec(CLEARANCE_BITS).precedes(distance),
{
    distance.gt(&Scalar::from_bits(CLEARANCE_BITS))
}

} // verus!
