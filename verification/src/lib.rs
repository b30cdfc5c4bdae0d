//! Procedural terrain rasterizer.
//!
//! The library maps every pixel of a raster grid to a terrain color: a
//! fractal-noise sample and a radial falloff are combined into a clamped
//! elevation, and the elevation is quantized to an RGB triple by
//! piecewise-linear interpolation over a fixed color ramp.
//!
//! All scalar signals (coordinates, noise samples, elevations, ramp
//! thresholds) are held in fixed-point form: an `i64` value `v` stands for
//! the rational number `v / SCALE`. Sampling the coherent-noise field itself
//! is left to the caller, who hands the library one fixed-point noise sample
//! per pixel.

use vstd::prelude::*;

pub mod color;
pub mod elevation;
pub mod falloff;
pub mod point;
pub mod raster;

verus! {

/// Denominator of the fixed-point representation: an `i64` value `v` stands
/// for the rational number `v / SCALE`. An elevation of one unit of terrain
/// height is therefore stored as `SCALE`.
pub const SCALE: i64 = 1000;

} // verus!
