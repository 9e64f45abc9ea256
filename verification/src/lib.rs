//! A deterministic 2D/3D point-mass physics core: fixed-timestep simulation of
//! bodies under accumulated forces, with narrow-phase collision detection and
//! response, positional constraints, and semi-implicit Euler / Runge-Kutta
//! integration.
//!
//! All quantities are fixed-point numbers: an `i64` holds a value scaled by
//! `fixed::SCALE`, so every arithmetic step is exact integer arithmetic and
//! every contract pins the result down to the unit.

pub mod constraints;
pub mod error;
pub mod fixed;
pub mod nbody;
pub mod particle;
pub mod physics;
pub mod scene;
pub mod shapes;
pub mod solver;
pub mod spring;
pub mod timestep;
pub mod vec2;
pub mod vec3;
