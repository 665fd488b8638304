//! The shapes of a scene.

pub mod moving_sphere;
pub mod sphere;
pub mod xyrect;
