//! Algorithms that the drivers share.

pub mod bresenham;
