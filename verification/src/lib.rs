//! Verified core of a boids flocking simulation on a bounded 2D arena.
//!
//! All kinematic quantities are fixed-point integers: a coordinate or a
//! velocity component is stored as an `i64` holding the real value times
//! `math::SCALE`. Every step of the per-tick pipeline (neighbor scan,
//! steering, speed normalization, integration) is an executable function
//! whose contract pins its result down exactly over spec-level models.

pub mod boid;
pub mod config;
pub mod estimate;
pub mod math;
pub mod motion;
pub mod speed;
pub mod steering;
pub mod tick;
