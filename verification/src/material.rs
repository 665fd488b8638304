//! Materials: how a surface answers a ray.

use vstd::prelude::*;
use std::sync::Arc;
use crate::hitable::HitRecord;
use crate::ray::Ray;
use crate::scalar::{Scalar, ONE_BITS};
use crate::texture::{SolidColor, Texture};
use crate::vector::{Color, Vec3};

verus! {

/// The kinds of material.
#[derive(Clone, Copy, Debug, PartialEq, Eq, Structural)]
pub enum MaterialType {
    /// Scatters diffusely.
    Lambertian,
    /// Reflects, more or less sharply.
    Metal,
    /// Refracts.
    DiElectric,
    /// Gives off light and scatters nothing.
    DiffuseLight,
}

/// What the caller has worked out for a material to decide on: the
/// arithmetic that the material's kind asks for.
#[derive(Clone, Copy, Debug)]
pub enum Scattering {
    /// For a diffuse material: the normal plus a random unit vector, and
    /// the albedo at the point hit.
    Diffuse { candidate: Vec3, attenuation: Color },
    /// For a metal: the blurred reflection, its dot product with the
    /// normal, and the albedo at the point hit.
    Mirrored { direction: Vec3, facing: Scalar, attenuation: Color },
    /// For a dielectric: the refracted direction.
    Refracted { direction: Vec3 },
}

/// A material: its kind, its texture, and the two numbers that only some
/// kinds read.
#[derive(Clone)]
pub struct Material {
    material_type: MaterialType,
    albedo: Arc<Texture>,
    fuzz: Scalar,
    ir: Scalar,
}

impl Material {
    /// The kind.
    pub closed spec fn kind(&self) -> MaterialType {
        self.material_type
    }

    /// The texture: the albedo, or for a light what it emits.
    pub closed spec fn texture(&self) -> Texture {
        *self.albedo
    }

    /// How far a metal's reflection is blurred, at most one.
    pub closed spec fn fuzziness(&self) -> Scalar {
        self.fuzz
    }

    /// The index of refraction of a dielectric.
    pub closed spec fn index(&self) -> Scalar {
        self.ir
    }

    /// A diffuse material with the given albedo.
    pub fn new_lambertian(albedo: Arc<Texture>) -> (m: Self)
        ensures
            m.kind() == MaterialType::Lambertian,
            m.texture() == *albedo,
            m.fuzziness() == Scalar::from_bits_spec(0),
            m.index() == Scalar::from_bits_spec(0),
    {
        Self { material_type: MaterialType::Lambertian, albedo, fuzz: Scalar::zero(), ir: Scalar::zero() }
    }

    /// A metal with the given albedo. The blur is `fuzz` where that is
    /// less than one, and one elsewhere (also where `fuzz` is a NaN).
    pub fn new_metal(albedo: Arc<Texture>, fuzz: Scalar) -> (m: Self)
        ensures
            m.kind() == MaterialType::Metal,
            m.texture() == *albedo,
            m.fuzziness() == if fuzz.precedes(Scalar::from_bits_spec(ONE_BITS)) {
                fuzz
            } else {
                Scalar::from_bits_spec(ONE_BITS)
            },
            m.index() == Scalar::from_bits_spec(0),
    {
        Self {
            material_type: MaterialType::Metal,
            albedo,
            fuzz: if fuzz.lt(&Scalar::one()) {
                fuzz
            } else {
                Scalar::one()
            },
            ir: Scalar::zero(),
        }
    }

    /// A dielectric with the index of refraction `ir`. Its texture is
    /// plain black and is never read.
    pub fn new_dielectric(ir: Scalar) -> (m: Self)
        ensures
            m.kind() == MaterialType::DiElectric,
            m.texture() matches Texture::Solid(s) && s@@ == seq![
                Scalar::from_bits_spec(0),
                Scalar::from_bits_spec(0),
                Scalar::from_bits_spec(0),
            ],
            m.fuzziness() == Scalar::from_bits_spec(0),
            m.index() == ir,
    {
        Self {
            material_type: MaterialType::DiElectric,
            albedo: Arc::new(Texture::Solid(SolidColor::default())),
            fuzz: Scalar::zero(),
            ir,
        }
    }

    /// A light that emits what the texture `emit` holds.
    pub fn new_diffuse_light(emit: Arc<Texture>) -> (m: Self)
        ensures
            m.kind() == MaterialType::DiffuseLight,
            m.texture() == *emit,
            m.fuzziness() == Scalar::from_bits_spec(0),
            m.index() == Scalar::from_bits_spec(0),
    {
        Self { material_type: MaterialType::DiffuseLight, albedo: emit, fuzz: Scalar::zero(), ir: Scalar::zero() }
    }

    /// The kind.
    pub fn material_type(&self) -> (k: MaterialType)
        ensures
            k == self.kind(),
    {
        self.material_type
    }

    /// The texture.
    pub fn albedo(&self) -> (t: &Texture)
        ensures
            *t == self.texture(),
    {
        &self.albedo
    }

    /// The blur of a metal.
    pub fn fuzz(&self) -> (f: Scalar)
        ensures
            f == self.fuzziness(),
    {
        self.fuzz
    }

    /// The index of refraction of a dielectric.
    pub fn ir(&self) -> (i: Scalar)
        ensures
            i == self.index(),
    {
        self.ir
    }

    /// What the surface gives off, where its texture holds `sampled` at
    /// the point hit: that colour for a light, black for every other kind.
    pub fn emitted(&self, sampled: Color) -> (c: Color)
        ensures
            self.kind() == MaterialType::DiffuseLight ==> c == sampled,
            self.kind() != MaterialType::DiffuseLight ==> c@ == seq![
                Scalar::from_bits_spec(0),
                Scalar::from_bits_spec(0),
                Scalar::from_bits_spec(0),
            ],
    {
        match self.material_type {
            MaterialType::DiffuseLight => sampled,
            _ => Color::default(),
        }
    }

    /// How the material answers a ray sent out at `time` that met it at
    /// `rec`: with the attenuation and the scattered ray, or with nothing
    /// where the ray is absorbed. A light scatters nothing. Any other
    /// material answers by what the caller has worked out for it, which is
    /// to be what its kind asks for.
    pub fn scatter(&self, rec: &HitRecord, time: Scalar, computed: Scattering) -> (r: Option<(Vec3, Ray)>)
        ensures
            r == match computed {
                _ if self.kind() == MaterialType::DiffuseLight => None,
                Scattering::Diffuse { candidate, attenuation } => Some(
                    (
                        attenuation,
                        Ray::new_spec(rec.point_spec(), if candidate.tiny() {
                            rec.normal_spec()
                        } else {
                            candidate
                        }, time),
                    ),
                ),
                Scattering::Mirrored { direction, facing, attenuation } => if Scalar::from_bits_spec(0).precedes(
                    facing,
                ) {
                    Some((attenuation, Ray::new_spec(rec.point_spec(), direction, time)))
                } else {
                    None
                },
                Scattering::Refracted { direction } => Some(
                    (
                        Vec3::new_spec(
                            Scalar::from_bits_spec(ONE_BITS),
                            Scalar::from_bits_spec(ONE_BITS),
                            Scalar::from_bits_spec(ONE_BITS),
                        ),
                        Ray::new_spec(rec.point_spec(), direction, time),
                    ),
                ),
            },
    {
        match self.material_type {
            MaterialType::DiffuseLight => None,
            _ => match computed {
                Scattering::Diffuse { candidate, attenuation } => Self::scatter_lambertian(
                    rec,
                    time,
                    candidate,
                    attenuation,
                ),
                Scattering::Mirrored { direction, facing, attenuation } => Self::scatter_metal(
                    rec,
                    time,
                    direction,
                    facing,
                    attenuation,
                ),
                Scattering::Refracted { direction } => Self::scatter_dielectric(rec, time, direction),
            },
        }
    }

    /// The diffuse answer to a ray sent out at `time`. `candidate` is the
    /// normal plus a random unit vector, `attenuation` the albedo at the
    /// point hit. The ray always scatters, from the point hit: along
    /// `candidate`, or along the normal where `candidate` is too close to
    /// zero to give a direction.
    pub fn scatter_lambertian(rec: &HitRecord, time: Scalar, candidate: Vec3, attenuation: Color) -> (r: Option<(Vec3, Ray)>)
        ensures
            r == Some(
                (
                    attenuation,
                    Ray::new_spec(rec.point_spec(), if candidate.tiny() {
                        rec.normal_spec()
                    } else {
                        candidate
                    }, time),
                ),
            ),
    {
        let direction = if candidate.near_zero() {
            *rec.normal()
        } else {
            candidate
        };
        Some((attenuation, Ray::new(*rec.point(), direction, time)))
    }

    /// The metal's answer to a ray sent out at `time`. `direction` is the
    /// blurred reflection, `facing` its dot product with the normal,
    /// `attenuation` the albedo at the point hit. The ray scatters where
    /// `facing` is greater than zero, and is absorbed elsewhere.
    pub fn scatter_metal(rec: &HitRecord, time: Scalar, direction: Vec3, facing: Scalar, attenuation: Color) -> (r: Option<(Vec3, Ray)>)
        ensures
            r == if Scalar::from_bits_spec(0).precedes(facing) {
                Some((attenuation, Ray::new_spec(rec.point_spec(), direction, time)))
            } else {
                None
            },
    {
        if facing.gt(&Scalar::zero()) {
            Some((attenuation, Ray::new(*rec.point(), direction, time)))
        } else {
            None
        }
    }

    /// The dielectric's answer to a ray sent out at `time`, which it bends
    /// into `refracted`: the ray always goes on, and loses nothing.
    pub fn scatter_dielectric(rec: &HitRecord, time: Scalar, refracted: Vec3) -> (r: Option<(Vec3, Ray)>)
        ensures
            r == Some(
                (
                    Vec3::new_spec(
                        Scalar::from_bits_spec(ONE_BITS),
                        Scalar::from_bits_spec(ONE_BITS),
                        Scalar::from_bits_spec(ONE_BITS),
                    ),
                    Ray::new_spec(rec.point_spec(), refracted, time),
                ),
            ),
    {
        let attenuation = Color::new(Scalar::one(), Scalar::one(), Scalar::one());
        Some((attenuation, Ray::new(*rec.point(), refracted, time)))
    }

    /// The ratio of the refraction indices that a ray meets: `inverse`,
    /// which is one over the material's index, where the ray comes from
    /// outside, and the index itself where it comes from inside.
    pub fn refraction_ratio(&self, front_face: bool, inverse: Scalar) -> (r: Scalar)
        ensures
            r == if front_face {
                inverse
            } else {
                self.index()
            },
    {
        if front_face {
            inverse
        } else {
            self.ir
        }
    }
}

} // verus!
