//! Conway's Game of Life on a fixed-size toroidal grid.
//!
//! The simulation engine keeps two parallel cell buffers ("current" and
//! "next"), counts live neighbors under wrap-around 8-connectivity, applies
//! the standard birth/survival rule to every cell at once, and swaps the two
//! buffers' roles. A catalog of classic patterns (still lifes, oscillators,
//! spaceships) can be seeded onto the grid, and the current generation can be
//! rendered into a plain pixel buffer.

pub mod framebuffer;
pub mod life;
pub mod laws;
pub mod patterns;
