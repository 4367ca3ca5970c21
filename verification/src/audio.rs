//! Procedural audio: fixed-point synthesis engine and musical scales.

pub mod fixed;
pub mod neural;
pub mod rng;
pub mod samples;
pub mod drone;
pub mod reverb;
pub mod saturation;
pub mod limiter;
pub mod cell_matrix;
pub mod engine;
pub mod scales;
