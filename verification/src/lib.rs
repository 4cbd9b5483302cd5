//! Simulation core of a 2D asteroids-style arcade game.
//!
//! The library decides where asteroid bodies appear as the player roams an
//! unbounded world, how collisions erode structural integrity ("sturdiness"),
//! and how a destroyed asteroid splits into smaller fragments.  An external
//! physics and rendering engine supplies positions, velocities, masses and
//! contact-start notifications, and consumes newly created bodies; this crate
//! holds only the decisions, on plain fixed-point values, so that every rule
//! can be verified.
//!
//! All world quantities are carried as `i64` fixed-point numbers: one world
//! unit is 1000 "milli" steps.  Unit direction vectors use a finer scale of
//! 1_000_000 per unit length.

pub mod asteroid;
pub mod body;
pub mod bullet;
pub mod chunk;
pub mod damage;
pub mod fixed;
pub mod lifecycle;
mod rng;
pub mod spawn;
pub mod types;
