//! An interactive editor core for a two-dimensional grid of ternary
//! cells (true, false, or unset), with a durable structured-text form,
//! a grayscale raster export, a cursor/paint state machine, and a pure
//! two-tier frame compositor.

pub mod codec;
pub mod compositor;
pub mod grid;
pub mod navigator;
