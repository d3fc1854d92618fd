//! A stochastic ray-tracing core over fixed-point arithmetic.
//!
//! Scalars are signed 64-bit fixed-point numbers with 16 fractional bits
//! (`fixed::FX_ONE` is the number one).  The renderer casts jittered camera
//! rays into a list of spheres, follows them through diffuse, specular and
//! refractive scattering, and averages the accumulated radiance per pixel.

pub mod camera;
pub mod config;
pub mod color;
pub mod fixed;
pub mod hittable;
pub mod hittable_list;
pub mod material;
pub mod ray;
pub mod render;
pub mod rng;
pub mod sphere;
pub mod vec3;
