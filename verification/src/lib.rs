//! Fixed-point particle simulation core: parameter mapping, wall collisions,
//! pointer-driven force fields, quadratic drag and semi-implicit Euler
//! integration, all over scaled 64-bit integers.

pub mod config;
pub mod fixed;
pub mod params;
pub mod roots;
pub mod sim;
pub mod vec2;
