//! Raster driver: walks all pixel coordinates in row-major order and
//! accumulates one RGB triple per pixel into a flat output buffer.

use vstd::arithmetic::div_mod::lemma_fundamental_div_mod;
use vstd::arithmetic::div_mod::lemma_fundamental_div_mod_converse;
use vstd::prelude::*;

use crate::color::color_for_value;
use crate::color::spec_color_for_value;
use crate::color::Rgb;
use crate::elevation::spec_value_at_point;
use crate::elevation::value_at_point;
use crate::elevation::MAX_NOISE_SAMPLE;
use crate::point::pixel_to_point;
use crate::SCALE;

verus! {

/// The color of pixel `i` (in row-major order) of a `width x height` raster
/// whose fixed-point noise samples are `noise`.
pub open spec fn spec_pixel_color(noise: Seq<i64>, i: int, width: int, height: int) -> Rgb
    recommends
        1 <= width,
        1 <= height,
        noise.len() == width * height,
        0 <= i < width * height,
{
    spec_color_for_value(
        spec_value_at_point(
            noise[i] as int,
            (i % width) * SCALE,
            (i / width) * SCALE,
            width,
            height,
        ),
    )
}

/// Pixel `i` of the buffer `out` holds the three channels of the color that
/// the pipeline assigns to it.
pub open spec fn pixel_written(
    noise: Seq<i64>,
    out: Seq<u8>,
    i: int,
    width: int,
    height: int,
) -> bool
    recommends
        1 <= width,
        1 <= height,
        noise.len() == width * height,
        0 <= i < width * height,
        3 * width * height <= out.len(),
{
    let c = spec_pixel_color(noise, i, width, height);
    &&& out[3 * i] == c.r
    &&& out[3 * i + 1] == c.g
    &&& out[3 * i + 2] == c.b
}

/// The buffer `out` is the raster of `noise` over a `width x height` grid:
/// one RGB triple per pixel, row-major, three bytes each, no padding.
pub open spec fn raster_post(noise: Seq<i64>, width: int, height: int, out: Seq<u8>) -> bool
    recommends
        1 <= width,
        1 <= height,
        noise.len() == width * height,
{
    &&& out.len() == 3 * width * height
    &&& forall|i: int|
        0 <= i < width * height ==> #[trigger] pixel_written(noise, out, i, width, height)
}

/// Every noise sample is small enough to compose with the falloff field.
pub open spec fn noise_in_range(noise: Seq<i64>) -> bool {
    forall|i: int| 0 <= i < noise.len() ==> -MAX_NOISE_SAMPLE <= #[trigger] noise[i] <= MAX_NOISE_SAMPLE
}

/// Renders the raster: iterates rows from the top and pixels from the left,
/// maps each pixel through falloff composition and the color ramp, and
/// appends its three channels to the output buffer.
pub fn generate_raster(noise: &Vec<i64>, width: u32, height: u32) -> (out: Vec<u8>)
    requires
        1 <= width,
        1 <= height,
        noise@.len() == width as int * height as int,
        noise_in_range(noise@),
        3 * width as int * height as int <= usize::MAX as int,
    ensures
        raster_post(noise@, width as int, height as int, out@),
{
    let mut out: Vec<u8> = Vec::new();
    let mut y: u32 = 0;
    while y < height
        invariant
            1 <= width,
            1 <= height,
            noise@.len() == width as int * height as int,
            noise_in_range(noise@),
            3 * width as int * height as int <= usize::MAX as int,
            y <= height,
            out@.len() == 3 * (y as int * width as int),
            forall|i: int|
                0 <= i < y as int * width as int ==> #[trigger] pixel_written(
                    noise@,
                    out@,
                    i,
                    width as int,
                    height as int,
                ),
        decreases height - y,
    {
        let mut x: u32 = 0;
        while x < width
            invariant
                1 <= width,
                1 <= height,
                noise@.len() == width as int * height as int,
                noise_in_range(noise@),
                3 * width as int * height as int <= usize::MAX as int,
                y < height,
                x <= width,
                out@.len() == 3 * (y as int * width as int + x as int),
                forall|i: int|
                    0 <= i < y as int * width as int + x as int ==> #[trigger] pixel_written(
                        noise@,
                        out@,
                        i,
                        width as int,
                        height as int,
                    ),
            decreases width - x,
        {
            proof {
                assert(0 <= y as int * width as int && (y as int * width as int + x as int)
                    < width as int * height as int && 3 * (width as int * height as int) == 3
                    * width as int * height as int) by (nonlinear_arith)
                    requires
                        0 <= y && (y as int) < height as int,
                        0 <= x && (x as int) < width as int,
                ;
            }
            let idx: usize = y as usize * width as usize + x as usize;
            let point = pixel_to_point(x, y);
            let elevation = value_at_point(noise[idx], &point, width, height);
            let color = color_for_value(elevation);
            let ghost prev = out@;
            out.push(color.r);
            out.push(color.g);
            out.push(color.b);
            proof {
                lemma_fundamental_div_mod_converse(
                    idx as int,
                    width as int,
                    y as int,
                    x as int,
                );
                assert(pixel_written(noise@, out@, idx as int, width as int, height as int));
                assert forall|i: int| 0 <= i < idx as int implies #[trigger] pixel_written(
                    noise@,
                    out@,
                    i,
                    width as int,
                    height as int,
                ) by {
                    assert(pixel_written(noise@, prev, i, width as int, height as int));
                    assert(out@[3 * i] == prev[3 * i]);
                    assert(out@[3 * i + 1] == prev[3 * i + 1]);
                    assert(out@[3 * i + 2] == prev[3 * i + 2]);
                }
            }
            x += 1;
        }
        proof {
            assert((y as int + 1) * width as int == y as int * width as int + width as int)
                by (nonlinear_arith);
        }
        y += 1;
    }
    proof {
        assert(height as int * width as int == width as int * height as int && 3 * (width as int
            * height as int) == 3 * width as int * height as int) by (nonlinear_arith);
    }
    out
}

/// Law: the raster is a deterministic function of the noise samples and the
/// raster dimensions. Any two buffers that satisfy the driver's
/// postcondition for the same inputs are byte-identical.
pub proof fn lemma_raster_deterministic(
    noise: Seq<i64>,
    width: int,
    height: int,
    out1: Seq<u8>,
    out2: Seq<u8>,
)
    requires
        1 <= width,
        1 <= height,
        noise.len() == width * height,
        raster_post(noise, width, height, out1),
        raster_post(noise, width, height, out2),
    ensures
        out1 == out2,
{
    assert forall|k: int| 0 <= k < out1.len() implies out1[k] == out2[k] by {
        let i = k / 3;
        let r = k % 3;
        lemma_fundamental_div_mod(k, 3);
        vstd::arithmetic::div_mod::lemma_mod_bound(k, 3);
        vstd::arithmetic::div_mod::lemma_div_pos_is_pos(k, 3);
        assert(3 * (width * height) == 3 * width * height) by (nonlinear_arith);
        assert(0 <= i < width * height);
        assert(pixel_written(noise, out1, i, width, height));
        assert(pixel_written(noise, out2, i, width, height));
    }
    assert(out1 =~= out2);
}

} // verus!
