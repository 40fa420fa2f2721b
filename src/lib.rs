//! Simulation core of a top-down wave-combat arcade game.
//!
//! All quantities are fixed-point integers: one world unit is [`geometry::ONE`]
//! steps, so positions, speeds, health, damage and shake magnitude are exact.
pub mod geometry;
mod random;
pub mod entities;
pub mod combat;
pub mod wave;
pub mod shake;
pub mod level;
pub mod simulation;
