use terramap::color::{color_for_value, lerp, lerp_colors, ramp_table, Rgb};
use terramap::elevation::{clamp, value_at_point, MAX_NOISE_SAMPLE};
use terramap::falloff::{gradient_value, icbrt, CENTER_BIAS, CORNER_BIAS};
use terramap::point::{adjust_point, pixel_to_point, Point2};
use terramap::raster::generate_raster;
use terramap::SCALE;

fn rgb(r: u8, g: u8, b: u8) -> Rgb {
    Rgb { r, g, b }
}

#[test]
fn ramp_endpoints_are_exact() {
    assert_eq!(color_for_value(-SCALE), rgb(0, 0, 128));
    assert_eq!(color_for_value(SCALE), rgb(255, 255, 255));
}

#[test]
fn ramp_midpoint_of_first_segment_averages() {
    assert_eq!(color_for_value(-625), rgb(0, 0, 191));
}

#[test]
fn ramp_thresholds_take_their_own_color() {
    assert_eq!(color_for_value(-250), rgb(0, 0, 255));
    assert_eq!(color_for_value(0), rgb(0, 128, 255));
    assert_eq!(color_for_value(62), rgb(240, 240, 64));
    assert_eq!(color_for_value(125), rgb(32, 160, 0));
    assert_eq!(color_for_value(375), rgb(224, 224, 0));
    assert_eq!(color_for_value(550), rgb(128, 128, 128));
}

#[test]
fn ramp_interpolates_inside_each_segment() {
    assert_eq!(color_for_value(-125), rgb(0, 64, 255));
    assert_eq!(color_for_value(31), rgb(120, 184, 159));
    assert_eq!(color_for_value(93), rgb(137, 200, 32));
    assert_eq!(color_for_value(250), rgb(128, 192, 0));
    assert_eq!(color_for_value(500), rgb(155, 155, 91));
    assert_eq!(color_for_value(775), rgb(191, 191, 191));
    assert_eq!(color_for_value(999), rgb(254, 254, 254));
}

#[test]
fn ramp_never_aborts_over_whole_domain() {
    let mut v: i64 = -SCALE;
    while v <= SCALE {
        let _ = color_for_value(v);
        v += 1;
    }
}

#[test]
fn ramp_is_monotone_inside_a_segment() {
    // Lowland to highland: red and green rise, blue stays at zero.
    let low = color_for_value(150);
    let mid = color_for_value(250);
    let high = color_for_value(300);
    assert!(low.r <= mid.r && mid.r <= high.r);
    assert!(low.g <= mid.g && mid.g <= high.g);
    assert_eq!((low.b, mid.b, high.b), (0, 0, 0));
    // Sand to lowland vegetation: red falls across the segment.
    let sand = color_for_value(62);
    let between = color_for_value(93);
    let vegetation = color_for_value(124);
    assert!(sand.r >= between.r && between.r >= vegetation.r);
}

#[test]
fn ramp_is_not_monotone_across_segments() {
    // Rising elevation brightens red up to the beach, then darkens it into
    // the vegetation: the ramp is only monotone segment by segment.
    let shallow = color_for_value(31);
    let beach = color_for_value(62);
    let vegetation = color_for_value(125);
    assert!(shallow.r < beach.r);
    assert!(beach.r > vegetation.r);
}

#[test]
fn ramp_table_lists_the_control_points() {
    let table = ramp_table();
    assert_eq!(table.len(), 8);
    assert_eq!(table[0], (-1000, rgb(0, 0, 128)));
    assert_eq!(table[1], (-250, rgb(0, 0, 255)));
    assert_eq!(table[2], (0, rgb(0, 128, 255)));
    assert_eq!(table[3], (62, rgb(240, 240, 64)));
    assert_eq!(table[4], (125, rgb(32, 160, 0)));
    assert_eq!(table[5], (375, rgb(224, 224, 0)));
    assert_eq!(table[6], (550, rgb(128, 128, 128)));
    assert_eq!(table[7], (1000, rgb(255, 255, 255)));
}

#[test]
fn lerp_truncates_toward_the_floor() {
    assert_eq!(lerp(128, 255, 375, 750), 191);
    assert_eq!(lerp(0, 0, 1, 2), 0);
    assert_eq!(lerp(255, 0, 1, 3), 170);
    assert_eq!(lerp(10, 20, 0, 5), 10);
    assert_eq!(lerp(10, 20, 5, 5), 20);
}

#[test]
fn lerp_colors_interpolates_each_channel() {
    let a = rgb(0, 0, 128);
    let b = rgb(0, 0, 255);
    assert_eq!(lerp_colors(a, b, 375, 750), rgb(0, 0, 191));
}

#[test]
fn gradient_at_center_is_the_plateau() {
    let center = pixel_to_point(600, 400);
    assert_eq!(gradient_value(&center, 1200, 800), CENTER_BIAS);
    let small_center = pixel_to_point(2, 2);
    assert_eq!(gradient_value(&small_center, 4, 4), CENTER_BIAS);
}

#[test]
fn gradient_at_corner_is_the_corner_bias() {
    let corner = pixel_to_point(0, 0);
    assert_eq!(gradient_value(&corner, 1200, 800), CORNER_BIAS);
    assert_eq!(gradient_value(&corner, 4, 4), CORNER_BIAS);
    assert_eq!(CORNER_BIAS, CENTER_BIAS - 1259);
}

#[test]
fn gradient_partway_out_matches_the_cubic_norm() {
    // One pixel right of center on one axis of a four-pixel raster:
    // half a unit out, zero on the other axis, cube root is exact.
    let p = pixel_to_point(1, 2);
    assert_eq!(gradient_value(&p, 4, 4), CENTER_BIAS - 500);
}

#[test]
fn icbrt_returns_the_floored_cube_root() {
    assert_eq!(icbrt(0), 0);
    assert_eq!(icbrt(1), 1);
    assert_eq!(icbrt(7), 1);
    assert_eq!(icbrt(8), 2);
    assert_eq!(icbrt(999_999_999), 999);
    assert_eq!(icbrt(1_000_000_000), 1000);
    assert_eq!(icbrt(2_000_000_000), 1259);
}

#[test]
fn clamp_forces_values_into_the_interval() {
    assert_eq!(clamp(5, -10, 10), 5);
    assert_eq!(clamp(-11, -10, 10), -10);
    assert_eq!(clamp(11, -10, 10), 10);
    assert_eq!(clamp(10, -10, 10), 10);
    assert_eq!(clamp(-10, -10, 10), -10);
}

#[test]
fn pixel_to_point_scales_the_indices() {
    let p = pixel_to_point(5, 7);
    assert_eq!((p.x, p.y), (5000, 7000));
}

#[test]
fn adjust_point_divides_by_the_zoom() {
    let p = pixel_to_point(5, 7);
    assert_eq!(adjust_point(&p, 100), Point2 { x: 50, y: 70 });
    assert_eq!(adjust_point(&p, 3), Point2 { x: 1666, y: 2333 });
}

#[test]
fn value_at_point_sums_noise_and_falloff_then_clamps() {
    let center = pixel_to_point(600, 400);
    assert_eq!(value_at_point(0, &center, 1200, 800), CENTER_BIAS);
    let corner = pixel_to_point(0, 0);
    assert_eq!(value_at_point(900, &corner, 1200, 800), 900 + CORNER_BIAS);
    assert_eq!(value_at_point(2_000_000, &center, 1200, 800), SCALE);
    assert_eq!(value_at_point(-2_000_000, &center, 1200, 800), -SCALE);
}

#[test]
fn value_at_point_is_deterministic() {
    let p = pixel_to_point(17, 23);
    let first = value_at_point(12345, &p, 1200, 800);
    let second = value_at_point(12345, &p, 1200, 800);
    assert_eq!(first, second);
}

#[test]
fn elevation_stays_in_range_for_extreme_noise() {
    for &noise in &[-MAX_NOISE_SAMPLE, -1_000_000, -1, 0, 1, 1_000_000, MAX_NOISE_SAMPLE] {
        for &(x, y) in &[(0u32, 0u32), (1, 2), (3, 3), (2, 0)] {
            let p = pixel_to_point(x, y);
            let e = value_at_point(noise, &p, 4, 4);
            assert!(-SCALE <= e && e <= SCALE);
        }
    }
}

#[test]
fn raster_is_row_major_and_three_bytes_per_pixel() {
    let mut noise: Vec<i64> = Vec::new();
    for i in 0..16i64 {
        noise.push((i * 137) % 2001 - 1000);
    }
    let out = generate_raster(&noise, 4, 4);
    assert_eq!(out.len(), 48);
    let mut expected: Vec<u8> = Vec::new();
    for y in 0..4u32 {
        for x in 0..4u32 {
            let p = pixel_to_point(x, y);
            let e = value_at_point(noise[(y * 4 + x) as usize], &p, 4, 4);
            let c = color_for_value(e);
            expected.push(c.r);
            expected.push(c.g);
            expected.push(c.b);
        }
    }
    assert_eq!(out, expected);
}

#[test]
fn raster_runs_are_byte_identical() {
    let mut noise: Vec<i64> = Vec::new();
    for i in 0..16i64 {
        noise.push((i * i * 31) % 2001 - 1000);
    }
    let first = generate_raster(&noise, 4, 4);
    let second = generate_raster(&noise, 4, 4);
    assert_eq!(first.len(), 48);
    assert_eq!(first, second);
}

#[test]
fn raster_handles_extreme_noise_samples() {
    let noise = vec![MAX_NOISE_SAMPLE; 9];
    let out = generate_raster(&noise, 3, 3);
    assert_eq!(out.len(), 27);
    // Everything saturates to the top of the ramp: snow everywhere.
    assert!(out.iter().all(|&b| b == 255));
}
