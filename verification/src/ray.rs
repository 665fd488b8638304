//! Rays.

use vstd::prelude::*;
use crate::scalar::{Scalar, INFINITY_BITS};
use crate::vector::Vec3;

verus! {

/// A ray: the points `origin + t * direction`, sent out at a moment of the
/// shutter interval.
#[derive(Clone, Copy, Debug)]
pub struct Ray {
    origin: Vec3,
    direction: Vec3,
    time: Scalar,
}

impl Ray {
    /// Origin, direction and time.
    pub closed spec fn view(&self) -> (Vec3, Vec3, Scalar) {
        (self.origin, self.direction, self.time)
    }

    /// The ray from `origin` along `direction` at `time`, in contracts.
    pub closed spec fn new_spec(origin: Vec3, direction: Vec3, time: Scalar) -> Ray {
        Ray { origin, direction, time }
    }

    /// The ray from `origin` along `direction` at `time`.
    #[verifier::when_used_as_spec(new_spec)]
    pub fn new(origin: Vec3, direction: Vec3, time: Scalar) -> (r: Self)
        ensures
            r@ == (origin, direction, time),
            r == Ray::new_spec(origin, direction, time),
    {
        Self { origin, direction, time }
    }

    /// Where the ray starts.
    pub fn origin(&self) -> (v: &Vec3)
        ensures
            *v == self@.0,
    {
        &self.origin
    }

    /// Where the ray points.
    pub fn direction(&self) -> (v: &Vec3)
        ensures
            *v == self@.1,
    {
        &self.direction
    }

    /// The moment at which the ray was sent out.
    pub fn time(&self) -> (t: Scalar)
        ensures
            t == self@.2,
    {
        self.time
    }
}

/// The pattern of `0.001`: a ray is not searched any nearer to where it
/// starts, lest it meet the surface that it has just left.
pub const SHADOW_EPSILON_BITS: u64 = 0x3f50_624d_d2f1_a9fc;

/// What became of a ray that was traced through the scene.
#[derive(Clone, Copy, Debug, PartialEq, Eq, Structural)]
pub enum Fate {
    /// It met nothing.
    Missed,
    /// It met a surface that scattered nothing.
    Absorbed,
    /// It met a surface that sent a ray on.
    Scattered,
}

/// How the colour of a path ends. Every surface on the path adds what it
/// emits, weighed by what the surfaces before it have let through; the
/// last term is one of these.
#[derive(Clone, Copy, Debug, PartialEq, Eq, Structural)]
pub enum Ending {
    /// Black: the path was cut off.
    Black,
    /// The background: the last ray met nothing.
    Background,
    /// Nothing more than what the last surface emits.
    Emitted,
}

/// How the colour of a path ends that may trace `depth` rays and whose
/// rays meet the given fates in turn; nothing where the fates run out
/// before the path has ended.
pub open spec fn ending(depth: int, fates: Seq<Fate>) -> Option<Ending>
    decreases fates.len(),
{
    if depth <= 0 {
        Some(Ending::Black)
    } else if fates.len() == 0 {
        None
    } else {
        match fates.first() {
            Fate::Missed => Some(Ending::Background),
            Fate::Absorbed => Some(Ending::Emitted),
            Fate::Scattered => ending(depth - 1, fates.drop_first()),
        }
    }
}

/// The path of a ray through the scene, bounce by bounce.
///
/// While [`Path::interval`] gives an interval, the caller traces the
/// current ray through the scene within it and tells [`Path::advance`]
/// what became of the ray. When `advance` names an ending, the colour of
/// the path is complete.
#[derive(Clone, Copy, Debug)]
pub struct Path {
    depth: i32,
}

impl Path {
    /// How many rays the path may still trace.
    pub closed spec fn view(&self) -> int {
        self.depth as int
    }

    /// A path that may trace `depth` rays.
    pub fn new(depth: i32) -> (p: Self)
        ensures
            p@ == depth,
    {
        Self { depth }
    }

    /// The interval of ray parameters in which the next ray is searched:
    /// from `0.001` to infinity. Nothing where the path may trace no more
    /// rays: its colour then ends in black.
    pub fn interval(&self) -> (r: Option<(Scalar, Scalar)>)
        ensures
            self@ <= 0 ==> r is None,
            self@ > 0 ==> r == Some(
                (Scalar::from_bits_spec(SHADOW_EPSILON_BITS), Scalar::from_bits_spec(INFINITY_BITS)),
            ),
    {
        if self.depth <= 0 {
            None
        } else {
            Some((Scalar::from_bits(SHADOW_EPSILON_BITS), Scalar::infinity()))
        }
    }

    /// Takes what became of the ray just traced, and says how the colour
    /// ends if the path ends here.
    pub fn advance(&mut self, fate: Fate) -> (r: Option<Ending>)
        ensures
            r == ending(old(self)@, seq![fate]),
            final(self)@ == if old(self)@ > 0 && fate == Fate::Scattered {
                old(self)@ - 1
            } else {
                old(self)@
            },
            forall|rest: Seq<Fate>|
                #![trigger ending(old(self)@, seq![fate] + rest)]
                ending(old(self)@, seq![fate] + rest) == match r {
                    Some(e) => Some(e),
                    None => ending(final(self)@, rest),
                },
    {
        proof {
            reveal_with_fuel(ending, 3);
            assert(seq![fate].first() == fate);
            assert(seq![fate].drop_first() =~= Seq::<Fate>::empty());
            assert forall|rest: Seq<Fate>| #![auto] (seq![fate] + rest).first() == fate && (seq![fate] + rest).drop_first() == rest by {
                assert((seq![fate] + rest).drop_first() =~= rest);
            }
        }
        if self.depth <= 0 {
            return Some(Ending::Black);
        }
        match fate {
            Fate::Missed => Some(Ending::Background),
            Fate::Absorbed => Some(Ending::Emitted),
            Fate::Scattered => {
                self.depth = self.depth - 1;
                if self.depth <= 0 {
                    Some(Ending::Black)
                } else {
                    None
                }
            },
        }
    }
}

} // verus!
