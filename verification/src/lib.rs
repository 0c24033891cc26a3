//! A toroidal 2D terrain generator and diffusion simulator.
//!
//! The library builds smooth gradient-noise scalar fields, seeds a grid of
//! cells with height, water and air pressure from them, and advances the grid
//! one synchronous tick at a time with flux-limited finite-difference rules
//! coupling height, standing water, air pressure, wind and heat. A biome
//! classifier tags every cell from its physical state.
//!
//! All physical quantities are fixed-point integers in units of
//! one millionth (see [`fixed`]), so every rule is exact and verified.

pub mod biome;
pub mod cell;
pub mod conservation;
pub mod fixed;
pub mod utils;
pub mod perlin;
pub mod rng;
pub mod vector;
pub mod world;
