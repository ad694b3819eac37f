//! A verified flocking ("boids") simulation engine.
//!
//! Agents steer by four local rules — separation, alignment, cohesion and
//! predator avoidance — computed against an O(n^2) neighbour scan, integrated
//! with a fixed step and wrapped at the domain boundary. All arithmetic is
//! fixed-point over `i64` coordinates so that every step carries an exact
//! contract.

pub mod boid;
pub mod boids_simulation;
pub mod flock;
pub mod rng;
pub mod vec2;
