//! Color ramp: quantizes a clamped elevation to an RGB triple by
//! piecewise-linear interpolation over a fixed table of control points.
//!
//! The table runs from deep ocean at the bottom of the elevation range up to
//! snow at the top. An elevation is colored by the segment it falls in: the
//! first control point whose threshold strictly exceeds it is the upper end,
//! the entry before it the lower end, and each channel is interpolated
//! linearly between the two endpoint colors, truncated to an integer.

use vstd::arithmetic::div_mod::lemma_div_is_ordered;
use vstd::arithmetic::div_mod::lemma_div_multiples_vanish;
use vstd::arithmetic::div_mod::lemma_div_pos_is_pos;
use vstd::arithmetic::div_mod::lemma_hoist_over_denominator;
use vstd::arithmetic::mul::lemma_mul_inequality;
use vstd::prelude::*;

use crate::SCALE;

verus! {

/// An RGB triple: three 8-bit channels, no alpha.
#[derive(Clone, Copy, Debug, PartialEq, Eq, Structural)]
pub struct Rgb {
    pub r: u8,
    pub g: u8,
    pub b: u8,
}

/// The fixed ramp of control points, in strictly ascending threshold order.
/// Thresholds are fixed-point elevations; the first one is the lowest
/// elevation the clamp can produce, so every clamped elevation has a lower
/// neighbor in the table.
pub open spec fn spec_ramp() -> Seq<(i64, Rgb)> {
    seq![
        (-1000i64, Rgb { r: 0, g: 0, b: 128 }),
        (-250i64, Rgb { r: 0, g: 0, b: 255 }),
        (0i64, Rgb { r: 0, g: 128, b: 255 }),
        (62i64, Rgb { r: 240, g: 240, b: 64 }),
        (125i64, Rgb { r: 32, g: 160, b: 0 }),
        (375i64, Rgb { r: 224, g: 224, b: 0 }),
        (550i64, Rgb { r: 128, g: 128, b: 128 }),
        (1000i64, Rgb { r: 255, g: 255, b: 255 }),
    ]
}

/// Builds the ramp of control points as a vector, lowest threshold first.
pub fn ramp_table() -> (table: Vec<(i64, Rgb)>)
    ensures
        table@ == spec_ramp(),
{
    let mut table: Vec<(i64, Rgb)> = Vec::new();
    table.push((-1000i64, Rgb { r: 0, g: 0, b: 128 }));
    table.push((-250i64, Rgb { r: 0, g: 0, b: 255 }));
    table.push((0i64, Rgb { r: 0, g: 128, b: 255 }));
    table.push((62i64, Rgb { r: 240, g: 240, b: 64 }));
    table.push((125i64, Rgb { r: 32, g: 160, b: 0 }));
    table.push((375i64, Rgb { r: 224, g: 224, b: 0 }));
    table.push((550i64, Rgb { r: 128, g: 128, b: 128 }));
    table.push((1000i64, Rgb { r: 255, g: 255, b: 255 }));
    proof {
        assert(table@ =~= spec_ramp());
    }
    table
}

/// One channel interpolated at fraction `num / den` between `a` and `b`,
/// truncated toward the lower end of the real interval.
pub open spec fn lerp_spec(a: int, b: int, num: int, den: int) -> int
    recommends
        0 < den,
{
    a + (b - a) * num / den
}

/// The interpolated channel stays between its two endpoints, hence within
/// the channel range.
pub proof fn lemma_lerp_in_range(a: int, b: int, num: int, den: int)
    requires
        0 < den,
        0 <= num <= den,
        0 <= a <= 255,
        0 <= b <= 255,
    ensures
        0 <= lerp_spec(a, b, num, den) <= 255,
{
    let z = (b - a) * num;
    let total = z + a * den;
    assert(0 <= total && total <= 255 * den) by (nonlinear_arith)
        requires
            0 < den,
            0 <= num <= den,
            0 <= a <= 255,
            0 <= b <= 255,
            z == (b - a) * num,
            total == z + a * den,
    ;
    lemma_div_pos_is_pos(total, den);
    lemma_div_is_ordered(total, 255 * den, den);
    lemma_div_multiples_vanish(255, den);
    lemma_hoist_over_denominator(z, a, den as nat);
}

/// Linearly interpolates one color channel and truncates it to an integer.
pub fn lerp(a: u8, b: u8, num: i64, den: i64) -> (channel: u8)
    requires
        0 < den <= 2 * SCALE,
        0 <= num <= den,
    ensures
        channel as int == lerp_spec(a as int, b as int, num as int, den as int),
{
    proof {
        let ai = a as int;
        let bi = b as int;
        let ni = num as int;
        let di = den as int;
        assert(0 <= ai * di && ai * di <= 510_000 && -510_000 <= (bi - ai) * ni && (bi - ai) * ni
            <= 510_000 && 0 <= ai * di + (bi - ai) * ni) by (nonlinear_arith)
            requires
                0 < di <= 2000,
                0 <= ni <= di,
                0 <= ai <= 255,
                0 <= bi <= 255,
        ;
        lemma_hoist_over_denominator((bi - ai) * ni, ai, di as nat);
        lemma_lerp_in_range(ai, bi, ni, di);
    }
    let total: i64 = a as i64 * den + (b as i64 - a as i64) * num;
    let channel: u64 = total as u64 / den as u64;
    channel as u8
}

/// Interpolates the three channels of two colors at fraction `num / den`.
pub fn lerp_colors(a: Rgb, b: Rgb, num: i64, den: i64) -> (color: Rgb)
    requires
        0 < den <= 2 * SCALE,
        0 <= num <= den,
    ensures
        color.r as int == lerp_spec(a.r as int, b.r as int, num as int, den as int),
        color.g as int == lerp_spec(a.g as int, b.g as int, num as int, den as int),
        color.b as int == lerp_spec(a.b as int, b.b as int, num as int, den as int),
{
    Rgb { r: lerp(a.r, b.r, num, den), g: lerp(a.g, b.g, num, den), b: lerp(a.b, b.b, num, den) }
}

/// One channel of the color the ramp assigns to elevation `v`, interpolated
/// in the segment `[lo, hi]` between channel values `a` at `lo` and `b` at
/// `hi`.
pub open spec fn segment_channel(v: int, lo: int, hi: int, a: int, b: int) -> u8
    recommends
        lo <= v < hi,
{
    lerp_spec(a, b, v - lo, hi - lo) as u8
}

/// The color the ramp assigns to elevation `v`: each channel interpolated
/// within the segment of the table that contains `v`. At the very top of the
/// domain, where no threshold strictly exceeds `v`, the last control point's
/// color is taken (interpolation at fraction one would give the same).
pub open spec fn spec_color_for_value(v: int) -> Rgb
    recommends
        -SCALE <= v <= SCALE,
{
    if v < -250 {
        spec_segment_color(v, 0)
    } else if v < 0 {
        spec_segment_color(v, 1)
    } else if v < 62 {
        spec_segment_color(v, 2)
    } else if v < 125 {
        spec_segment_color(v, 3)
    } else if v < 375 {
        spec_segment_color(v, 4)
    } else if v < 550 {
        spec_segment_color(v, 5)
    } else if v < 1000 {
        spec_segment_color(v, 6)
    } else {
        Rgb { r: 255, g: 255, b: 255 }
    }
}

/// The color interpolated for elevation `v` within segment `seg` of the
/// ramp, the segment between control points `seg` and `seg + 1`.
pub open spec fn spec_segment_color(v: int, seg: int) -> Rgb
    recommends
        0 <= seg < 7,
        spec_ramp()[seg].0 <= v < spec_ramp()[seg + 1].0,
{
    let lo = spec_ramp()[seg].0 as int;
    let hi = spec_ramp()[seg + 1].0 as int;
    let a = spec_ramp()[seg].1;
    let b = spec_ramp()[seg + 1].1;
    Rgb {
        r: segment_channel(v, lo, hi, a.r as int, b.r as int),
        g: segment_channel(v, lo, hi, a.g as int, b.g as int),
        b: segment_channel(v, lo, hi, a.b as int, b.b as int),
    }
}

/// Maps a clamped elevation to its terrain color: scans the ramp for the
/// first control point whose threshold strictly exceeds the value and
/// interpolates between that point and its lower neighbor.
pub fn color_for_value(value: i64) -> (color: Rgb)
    requires
        -SCALE <= value <= SCALE,
    ensures
        color == spec_color_for_value(value as int),
{
    let table = ramp_table();
    let mut i: usize = 1;
    while i < 8
        invariant
            1 <= i <= 8,
            table@ == spec_ramp(),
            -SCALE <= value <= SCALE,
            spec_ramp()[i - 1].0 <= value,
        decreases 8 - i,
    {
        let (threshold, upper_color) = table[i];
        if value < threshold {
            let (lower_threshold, lower_color) = table[i - 1];
            return lerp_colors(
                lower_color,
                upper_color,
                value - lower_threshold,
                threshold - lower_threshold,
            );
        }
        i += 1;
    }
    let (_, snow) = table[7];
    snow
}

/// Law: within one segment of the ramp, each interpolated channel is
/// monotone in the interpolation fraction, toward the upper endpoint.
pub proof fn lemma_lerp_monotonic(a: int, b: int, num1: int, num2: int, den: int)
    requires
        0 < den,
        0 <= num1 <= num2 <= den,
    ensures
        a <= b ==> lerp_spec(a, b, num1, den) <= lerp_spec(a, b, num2, den),
        b <= a ==> lerp_spec(a, b, num2, den) <= lerp_spec(a, b, num1, den),
{
    if a < b {
        lemma_mul_inequality(num1, num2, b - a);
        lemma_div_is_ordered((b - a) * num1, (b - a) * num2, den);
    } else if b < a {
        assert((b - a) * num2 <= (b - a) * num1) by (nonlinear_arith)
            requires
                num1 <= num2,
                b <= a,
        ;
        lemma_div_is_ordered((b - a) * num2, (b - a) * num1, den);
    } else {
        assert((b - a) * num1 == 0 && (b - a) * num2 == 0) by (nonlinear_arith)
            requires
                a == b,
        ;
        lemma_div_multiples_vanish(0, den);
    }
}

/// Law: the ramp colors are monotone per channel inside any one segment.
/// For two elevations in the same segment, each channel of the assigned
/// colors is ordered the way the segment's endpoint colors order it.
pub proof fn lemma_segment_monotonic(seg: int, v1: int, v2: int)
    requires
        0 <= seg < 7,
        spec_ramp()[seg].0 <= v1 <= v2,
        v2 < spec_ramp()[seg + 1].0,
    ensures
        ({
            let a = spec_ramp()[seg].1;
            let b = spec_ramp()[seg + 1].1;
            let c1 = spec_color_for_value(v1);
            let c2 = spec_color_for_value(v2);
            &&& (a.r <= b.r ==> c1.r <= c2.r)
            &&& (b.r <= a.r ==> c2.r <= c1.r)
            &&& (a.g <= b.g ==> c1.g <= c2.g)
            &&& (b.g <= a.g ==> c2.g <= c1.g)
            &&& (a.b <= b.b ==> c1.b <= c2.b)
            &&& (b.b <= a.b ==> c2.b <= c1.b)
        }),
{
    let lo = spec_ramp()[seg].0 as int;
    let hi = spec_ramp()[seg + 1].0 as int;
    let a = spec_ramp()[seg].1;
    let b = spec_ramp()[seg + 1].1;
    lemma_lerp_monotonic(a.r as int, b.r as int, v1 - lo, v2 - lo, hi - lo);
    lemma_lerp_monotonic(a.g as int, b.g as int, v1 - lo, v2 - lo, hi - lo);
    lemma_lerp_monotonic(a.b as int, b.b as int, v1 - lo, v2 - lo, hi - lo);
    lemma_lerp_in_range(a.r as int, b.r as int, v1 - lo, hi - lo);
    lemma_lerp_in_range(a.g as int, b.g as int, v1 - lo, hi - lo);
    lemma_lerp_in_range(a.b as int, b.b as int, v1 - lo, hi - lo);
    lemma_lerp_in_range(a.r as int, b.r as int, v2 - lo, hi - lo);
    lemma_lerp_in_range(a.g as int, b.g as int, v2 - lo, hi - lo);
    lemma_lerp_in_range(a.b as int, b.b as int, v2 - lo, hi - lo);
    assert(spec_color_for_value(v1) == spec_segment_color(v1, seg));
    assert(spec_color_for_value(v2) == spec_segment_color(v2, seg));
}

} // verus!
