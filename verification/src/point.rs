//! Coordinate mapper: pixel indices to sample-space points.

use vstd::prelude::*;

use crate::SCALE;

verus! {

/// A point in two-dimensional sample space. Each coordinate is fixed-point:
/// the field `x` stands for the real coordinate `x / SCALE`.
#[derive(Clone, Copy, Debug, PartialEq, Eq, Structural)]
pub struct Point2 {
    pub x: i64,
    pub y: i64,
}

/// Maps a pixel coordinate to its sample-space point: the point whose real
/// coordinates are exactly the pixel indices.
pub fn pixel_to_point(x: u32, y: u32) -> (p: Point2)
    ensures
        p.x == x as int * SCALE,
        p.y == y as int * SCALE,
        0 <= p.x,
        0 <= p.y,
{
    Point2 { x: x as i64 * SCALE, y: y as i64 * SCALE }
}

/// Shrinks a point by the zoom factor before noise sampling: a larger zoom
/// yields larger, smoother terrain features. Each fixed-point coordinate is
/// divided by `zoom`, rounding toward zero.
pub fn adjust_point(point: &Point2, zoom: i64) -> (adjusted: Point2)
    requires
        1 <= zoom,
        0 <= point.x,
        0 <= point.y,
    ensures
        adjusted.x == point.x as int / zoom as int,
        adjusted.y == point.y as int / zoom as int,
{
    let ax: u64 = point.x as u64 / zoom as u64;
    let ay: u64 = point.y as u64 / zoom as u64;
    proof {
        vstd::arithmetic::div_mod::lemma_div_nonincreasing(point.x as int, zoom as int);
        vstd::arithmetic::div_mod::lemma_div_pos_is_pos(point.x as int, zoom as int);
        vstd::arithmetic::div_mod::lemma_div_nonincreasing(point.y as int, zoom as int);
        vstd::arithmetic::div_mod::lemma_div_pos_is_pos(point.y as int, zoom as int);
    }
    Point2 { x: ax as i64, y: ay as i64 }
}

} // verus!
