//! The simulation core of a multiplayer snake game: how turns travel down
//! the chain of a snake, how a snake grows, what contacts mean, and how
//! clients keep their views of each other's snakes in line.
//!
//! Positions are fixed-point integers (one world unit is [`geometry::UNIT`]
//! steps) and clocks count milliseconds, so every rule of the simulation is
//! exact integer arithmetic.

pub mod codec;
pub mod collision;
pub mod config;
pub mod fidelity;
pub mod food;
pub mod game;
pub mod geometry;
pub mod input;
pub mod lookup;
pub mod networking;
pub mod reconcile;
mod rng;
pub mod scoring;
pub mod snek;
pub mod timer;
