//! Particles falling under gravity and bouncing inside a box, in exact
//! fixed-point arithmetic.

pub mod fixed;
pub mod vector;
pub mod particle;
pub mod boundary;
pub mod system;
pub mod laws;
