//! The verified core of a path tracer.
//!
//! Numbers are IEEE-754 doubles held as bit patterns. This crate stores
//! them, compares them and chooses among them, exactly; it does not
//! calculate with them. Whoever uses it does the arithmetic of rays and
//! shapes and hands the results in.
//!
//! So a search for the nearest hit is carried out in turns. The search
//! says what it needs to know next: where the ray meets an object, or
//! whether it crosses a box. The caller works that out and gives the
//! answer, and the search goes on from there. The same holds of the path
//! of a ray from bounce to bounce, and of the jobs and results of a pool
//! of render workers.

pub mod pixel;
pub mod scalar;
pub mod vector;
pub mod bounding_box;
pub mod random;
pub mod perlin;
pub mod texture;
pub mod ray;
pub mod material;
pub mod hitable;
pub mod bvh;
pub mod closest_hit;
pub mod threadpool;
pub mod objects;
pub mod picture;
pub mod bmp;
pub mod png;
pub mod ppm;
pub mod surface;
