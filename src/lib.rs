//! A flocking simulation of autonomous agents ("boids") with a double-buffered
//! frame.
//!
//! Quantities are fixed-point integers: `vector::SCALE` units make one pixel.
//! Lengths are compared through squared norms, and rescaling divides by the
//! ceiling of the square root, so a rescaled vector is never longer than asked.
//! The boundary policy is a hard toroidal wrap that ignores the body's extent:
//! past the far edge an agent reappears at 0, below 0 at the far edge.
pub mod boid;
pub mod buffer;
pub mod simulation;
pub mod vector;
