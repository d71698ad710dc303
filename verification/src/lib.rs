//! Simulation engine for a single-screen arcade shooter: a player ship fires
//! a single bullet upward at a grid of aliens that marches as one unit,
//! reversing and stepping down on edge contact, with rounds of increasing
//! difficulty and a sticky game-over state.
//!
//! All geometry is measured in micro-pixels (one screen pixel is
//! 1,000,000 units) and time in whole milliseconds, so every motion step is
//! exact integer arithmetic.

pub mod config;
pub mod geometry;
pub mod model;
pub mod game;
pub mod laws;
