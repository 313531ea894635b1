//! A small Monte Carlo path tracer over saturating fixed-point arithmetic.
//!
//! All scalar quantities (coordinates, matrix entries, colors, ray
//! parameters) are fixed-point numbers: an `i64` holding the real value
//! scaled by 2^16.  Every arithmetic operation computes its exact wide
//! result and saturates it into a fixed symmetric range, so no operation
//! can overflow and every operation has an exact contract.

pub mod color;
pub mod fixed;
pub mod make_scene;
pub mod mat4;
pub mod material;
pub mod ray;
pub mod rect;
pub mod renderer;
pub mod rng;
pub mod sampler;
pub mod scene;
pub mod sphere;
pub mod vec3;
