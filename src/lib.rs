//! Escape-time rendering of the Mandelbrot set: the classification of a
//! point, the banded colour map over that classification, the viewport
//! rectangle and its validity, and the raster and frame-buffer layout of a
//! rendered image.
pub mod bounds;
pub mod color;
pub mod escape;
pub mod math;
pub mod raster;
