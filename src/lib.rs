//! Conway's Game of Life on a toroidal grid, with the pixel rendering and
//! the downsampled animation frames that present it.

pub mod grid;
pub mod life;
pub mod laws;
pub mod render;
pub mod frames;
pub mod driver;
pub mod seed;
pub mod patterns;
