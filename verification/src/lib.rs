//! Pixel statistics behind a heuristic "likely synthetic" image score.
//!
//! The crate turns encoded image bytes into an 8-bit intensity grid and
//! measures it exactly, in integers: a 256-bucket histogram and the population
//! variance as a fraction. Turning those measurements into a rounded score is
//! left to the caller.

pub mod decode;
pub mod detect;
pub mod grid;
pub mod histogram;
pub mod variance;
