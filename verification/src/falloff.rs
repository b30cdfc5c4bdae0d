//! Falloff field: a radial bias that raises elevation near the raster center
//! and lowers it toward the edges, shaping the landmass.
//!
//! For a pixel at sample-space point `(px, py)` of a `width x height` raster,
//! the field is `CENTER_BIAS/SCALE - (dx^3 + dy^3)^(1/3)`, where `dx` and
//! `dy` are the distances from the raster center along each axis, as
//! fractions of the half-width and half-height. The cubic norm gives the
//! landmass a more rectangular silhouette than a Euclidean one would.

use vstd::arithmetic::div_mod::lemma_div_is_ordered;
use vstd::arithmetic::div_mod::lemma_div_multiples_vanish;
use vstd::arithmetic::div_mod::lemma_div_pos_is_pos;
use vstd::arithmetic::div_mod::lemma_fundamental_div_mod;
use vstd::math::abs;
use vstd::prelude::*;

use crate::point::Point2;
use crate::SCALE;

verus! {

/// Fixed-point height of the falloff plateau: the bias at the exact raster
/// center, one fifth of a unit.
pub const CENTER_BIAS: i64 = 200;

/// Fixed-point falloff at a raster corner, `CENTER_BIAS - icbrt_spec(2 * SCALE^3)`:
/// the most negative value the field takes.
pub const CORNER_BIAS: i64 = -1059;

/// The cube of an integer.
pub open spec fn cube(r: int) -> int {
    r * r * r
}

/// The integer cube root of a non-negative integer: the largest integer
/// whose cube does not exceed `n`.
pub open spec fn icbrt_spec(n: int) -> int
    recommends
        0 <= n,
{
    choose|r: int| 0 <= r && #[trigger] cube(r) <= n && n < cube(r + 1)
}

/// Cubing preserves order on the non-negative integers.
proof fn lemma_cube_monotonic(a: int, b: int)
    by (nonlinear_arith)
    requires
        0 <= a <= b,
    ensures
        a * a * a <= b * b * b,
{
}

/// At most one integer can be the cube root of `n`.
proof fn lemma_icbrt_unique(n: int, r1: int, r2: int)
    requires
        0 <= r1,
        cube(r1) <= n && n < cube(r1 + 1),
        0 <= r2,
        cube(r2) <= n && n < cube(r2 + 1),
    ensures
        r1 == r2,
{
    if r1 < r2 {
        lemma_cube_monotonic(r1 + 1, r2);
        assert(false);
    }
    if r2 < r1 {
        lemma_cube_monotonic(r2 + 1, r1);
        assert(false);
    }
}

/// Any integer bracketing `n` between its cube and the next cube is the
/// integer cube root of `n`.
proof fn lemma_icbrt_is(n: int, r: int)
    requires
        0 <= r,
        cube(r) <= n && n < cube(r + 1),
    ensures
        icbrt_spec(n) == r,
{
    assert(0 <= r && cube(r) <= n && n < cube(r + 1));
    let w = choose|k: int| 0 <= k && #[trigger] cube(k) <= n && n < cube(k + 1);
    lemma_icbrt_unique(n, w, r);
}

/// Computes the integer cube root by bisection.
pub fn icbrt(n: u64) -> (root: u64)
    requires
        n <= 2_000_000_000,
    ensures
        root == icbrt_spec(n as int),
        cube(root as int) <= n as int && (n as int) < cube(root as int + 1),
        root <= 1259,
{
    let mut lo: u64 = 0;
    let mut hi: u64 = 1260;
    assert(cube(1260) == 2_000_376_000);
    while lo + 1 < hi
        invariant
            lo < hi <= 1260,
            cube(lo as int) <= n as int && (n as int) < cube(hi as int),
        decreases hi - lo,
    {
        let mid = lo + (hi - lo) / 2;
        assert(mid as int * mid as int <= 1_587_600 && mid as int * mid as int * mid as int
            <= 2_000_376_000) by (nonlinear_arith)
            requires
                0 <= mid <= 1260,
        ;
        let c = mid * mid * mid;
        if c <= n {
            lo = mid;
        } else {
            hi = mid;
        }
    }
    proof {
        lemma_icbrt_is(n as int, lo as int);
    }
    lo
}

/// Normalized distance of a fixed-point coordinate from the center of an
/// axis of `extent` pixels, as a fixed-point fraction of the half-extent.
pub open spec fn axis_falloff(coord: int, extent: int) -> int
    recommends
        1 <= extent,
        0 <= coord <= extent * SCALE,
{
    abs(2 * coord - extent * SCALE) as int / extent
}

/// The falloff field at a sample-space point of a `width x height` raster.
pub open spec fn spec_gradient(px: int, py: int, width: int, height: int) -> int
    recommends
        1 <= width,
        1 <= height,
        0 <= px <= width * SCALE,
        0 <= py <= height * SCALE,
{
    CENTER_BIAS - icbrt_spec(
        cube(axis_falloff(px, width)) + cube(axis_falloff(py, height)),
    )
}

/// The normalized axis distance never exceeds one unit (`SCALE` in fixed
/// point) for a coordinate inside the raster.
proof fn lemma_axis_falloff_range(coord: int, extent: int)
    requires
        1 <= extent,
        0 <= coord <= extent * SCALE,
    ensures
        0 <= axis_falloff(coord, extent) <= SCALE,
{
    let a = abs(2 * coord - extent * SCALE) as int;
    assert(a <= extent * SCALE);
    lemma_div_is_ordered(a, extent * SCALE, extent);
    lemma_div_multiples_vanish(SCALE as int, extent);
    lemma_div_pos_is_pos(a, extent);
}

/// Evaluates the falloff field at a point of the raster.
pub fn gradient_value(point: &Point2, width: u32, height: u32) -> (gradient: i64)
    requires
        1 <= width,
        1 <= height,
        0 <= point.x <= width as int * SCALE,
        0 <= point.y <= height as int * SCALE,
    ensures
        gradient == spec_gradient(point.x as int, point.y as int, width as int, height as int),
        CORNER_BIAS <= gradient <= CENTER_BIAS,
{
    let wspan: i64 = width as i64 * SCALE;
    let hspan: i64 = height as i64 * SCALE;
    let dist_x: i64 = 2 * point.x - wspan;
    let dist_y: i64 = 2 * point.y - hspan;
    let adx: u64 = if dist_x < 0 {
        (-dist_x) as u64
    } else {
        dist_x as u64
    };
    let ady: u64 = if dist_y < 0 {
        (-dist_y) as u64
    } else {
        dist_y as u64
    };
    let dx: u64 = adx / width as u64;
    let dy: u64 = ady / height as u64;
    proof {
        lemma_axis_falloff_range(point.x as int, width as int);
        lemma_axis_falloff_range(point.y as int, height as int);
    }
    assert(dx as int * dx as int <= 1_000_000 && dx as int * dx as int * dx as int
        <= 1_000_000_000) by (nonlinear_arith)
        requires
            0 <= dx <= 1000,
    ;
    assert(dy as int * dy as int <= 1_000_000 && dy as int * dy as int * dy as int
        <= 1_000_000_000) by (nonlinear_arith)
        requires
            0 <= dy <= 1000,
    ;
    let radius = icbrt(dx * dx * dx + dy * dy * dy);
    CENTER_BIAS - radius as i64
}

/// Law: at the exact center of a raster with even dimensions the falloff is
/// exactly the plateau height, one fifth of a unit.
pub proof fn lemma_gradient_center(width: int, height: int)
    requires
        1 <= width,
        1 <= height,
        width % 2 == 0,
        height % 2 == 0,
    ensures
        spec_gradient((width / 2) * SCALE, (height / 2) * SCALE, width, height) == CENTER_BIAS,
{
    lemma_fundamental_div_mod(width, 2);
    lemma_fundamental_div_mod(height, 2);
    assert(2 * ((width / 2) * SCALE) - width * SCALE == 0);
    assert(abs(0) as int / width == 0) by {
        lemma_div_multiples_vanish(0, width);
    }
    assert(abs(0) as int / height == 0) by {
        lemma_div_multiples_vanish(0, height);
    }
    lemma_icbrt_is(0, 0);
}

/// Law: at a raster corner the falloff is exactly `CORNER_BIAS`, the
/// fixed-point form of one fifth less the cube root of two.
pub proof fn lemma_gradient_corner(width: int, height: int)
    requires
        1 <= width,
        1 <= height,
    ensures
        spec_gradient(0, 0, width, height) == CORNER_BIAS,
{
    assert(abs(0 - width * SCALE) == width * SCALE) by {
        vstd::arithmetic::mul::lemma_mul_nonnegative(width, SCALE as int);
    }
    assert(axis_falloff(0, width) == SCALE) by {
        lemma_div_multiples_vanish(SCALE as int, width);
    }
    assert(abs(0 - height * SCALE) == height * SCALE) by {
        vstd::arithmetic::mul::lemma_mul_nonnegative(height, SCALE as int);
    }
    assert(axis_falloff(0, height) == SCALE) by {
        lemma_div_multiples_vanish(SCALE as int, height);
    }
    assert(cube(1000) + cube(1000) == 2_000_000_000);
    lemma_icbrt_is(2_000_000_000, 1259);
}

} // verus!
