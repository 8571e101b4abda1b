//! Escape-time Mandelbrot rendering, split into a verified core.
//!
//! The core works on plain escape counts: the host computes, for every
//! pixel, how many orbit iterations completed before the escape threshold
//! was crossed (capped at `MAX_ITER`), and this crate turns those counts
//! into a row-major grayscale byte buffer, sequentially or row-parallel,
//! with both strategies proved to produce the same bytes.

pub mod escape;
pub mod render;
