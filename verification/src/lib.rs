//! A small verified ray tracer core: fixed-point vector, point and matrix
//! algebra, rays, the analytic ray-sphere intersection test, camera-ray
//! generation, a nearest-hit scan over a scene of spheres, and Lambertian
//! shading of the hit point by a single point light.
//!
//! All quantities are fixed-point numbers: an `i64` holding the real value
//! scaled by `fx::ONE` (65536, sixteen fractional bits). Every contract is
//! stated over the mathematical integers behind that representation, so the
//! arithmetic is exact and free of overflow by proof. Reading pixels and
//! writing the image are left to the caller: the core maps a pixel coordinate
//! and a scene description to an intensity value.

pub mod fx;
pub mod matrix;
pub mod point;
pub mod ray;
pub mod render;
pub mod sphere;
pub mod vector;
