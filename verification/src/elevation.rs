//! Elevation composer: combines a coherent-noise sample with the falloff
//! field and clamps the sum into the color ramp's domain.

use vstd::prelude::*;

use crate::falloff::gradient_value;
use crate::falloff::spec_gradient;
use crate::point::Point2;
use crate::SCALE;

verus! {

/// Largest fixed-point noise sample the composer accepts. A conforming
/// noise source stays near one unit; the bound only keeps the sum with the
/// falloff inside `i64`.
pub const MAX_NOISE_SAMPLE: i64 = 1_000_000_000;

/// `n` forced into the interval `[lo, hi]`.
pub open spec fn clamp_spec(n: int, lo: int, hi: int) -> int
    recommends
        lo <= hi,
{
    if n > hi {
        hi
    } else if n < lo {
        lo
    } else {
        n
    }
}

/// Forces a value into the interval `[min_bound, max_bound]`.
pub fn clamp(n: i64, min_bound: i64, max_bound: i64) -> (clamped: i64)
    requires
        min_bound <= max_bound,
    ensures
        clamped == clamp_spec(n as int, min_bound as int, max_bound as int),
        min_bound <= clamped <= max_bound,
{
    if n > max_bound {
        max_bound
    } else if n < min_bound {
        min_bound
    } else {
        n
    }
}

/// The elevation at a sample-space point, given the fixed-point noise sample
/// taken there: the sum of noise and falloff, clamped to one unit either way.
pub open spec fn spec_value_at_point(
    noise: int,
    px: int,
    py: int,
    width: int,
    height: int,
) -> int
    recommends
        1 <= width,
        1 <= height,
        0 <= px <= width * SCALE,
        0 <= py <= height * SCALE,
{
    clamp_spec(noise + spec_gradient(px, py, width, height), -SCALE as int, SCALE as int)
}

/// Composes the elevation at a point from the noise sample taken there and
/// the falloff field of the raster.
pub fn value_at_point(noise: i64, point: &Point2, width: u32, height: u32) -> (elevation: i64)
    requires
        1 <= width,
        1 <= height,
        0 <= point.x <= width as int * SCALE,
        0 <= point.y <= height as int * SCALE,
        -MAX_NOISE_SAMPLE <= noise <= MAX_NOISE_SAMPLE,
    ensures
        elevation == spec_value_at_point(
            noise as int,
            point.x as int,
            point.y as int,
            width as int,
            height as int,
        ),
        -SCALE <= elevation <= SCALE,
{
    let gradient = gradient_value(point, width, height);
    clamp(noise + gradient, -SCALE, SCALE)
}

/// Law: every composed elevation lies in the ramp's domain of one unit
/// either way, whatever the noise source returned.
pub proof fn lemma_elevation_in_range(noise: int, px: int, py: int, width: int, height: int)
    ensures
        -SCALE <= spec_value_at_point(noise, px, py, width, height) <= SCALE,
{
}

/// Law: the elevation is deterministic. Any two results that satisfy
/// `value_at_point`'s postcondition for the same noise sample, point and
/// raster dimensions are equal.
pub proof fn lemma_value_at_point_deterministic(
    noise: i64,
    point: Point2,
    width: u32,
    height: u32,
    elevation1: i64,
    elevation2: i64,
)
    requires
        elevation1 == spec_value_at_point(
            noise as int,
            point.x as int,
            point.y as int,
            width as int,
            height as int,
        ),
        elevation2 == spec_value_at_point(
            noise as int,
            point.x as int,
            point.y as int,
            width as int,
            height as int,
        ),
    ensures
        elevation1 == elevation2,
{
}

} // verus!
