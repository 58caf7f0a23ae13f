//! An 8-bit grayscale grid with boundary-safe access, and the pixel tools that
//! work on it: painting, copying, linear convolution and binary morphology,
//! each at one cell or across the whole image.

pub mod arith;
pub mod convolution;
pub mod demo;
pub mod morphology;
pub mod pix_grid;
pub mod tool;
