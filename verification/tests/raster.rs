use seldoon::raster::Raster;
use seldoon::rangify;

#[test]
fn rangify_orders_pairs() {
    assert_eq!(rangify(3, 7), (3, 7));
    assert_eq!(rangify(7, 3), (3, 7));
    assert_eq!(rangify(5, 5), (5, 5));
    assert_eq!(rangify(0, usize::MAX), (0, usize::MAX));
}

#[test]
fn classify_accepts_on_screen_positions() {
    let r = Raster::new(100, 50);
    assert_eq!(r.classify_pixel(0, 0), Ok((0, 0)));
    assert_eq!(r.classify_pixel(99, 49), Ok((99, 49)));
    assert_eq!(r.classify_pixel(42, 17), Ok((42, 17)));
}

#[test]
fn classify_hands_back_off_screen_positions() {
    let r = Raster::new(100, 50);
    assert_eq!(r.classify_pixel(-1, 0), Err((-1, 0)));
    assert_eq!(r.classify_pixel(100, 0), Err((100, 0)));
    assert_eq!(r.classify_pixel(0, -7), Err((0, -7)));
    assert_eq!(r.classify_pixel(0, 50), Err((0, 50)));
    assert_eq!(r.classify_pixel(550, -450), Err((550, -450)));
}

#[test]
fn clamp_keeps_on_screen_positions() {
    let r = Raster::new(100, 50);
    assert_eq!(r.clamp_pixel(0, 0), (0, 0));
    assert_eq!(r.clamp_pixel(99, 49), (99, 49));
    assert_eq!(r.clamp_pixel(12, 34), (12, 34));
}

#[test]
fn clamp_pulls_each_axis_onto_the_screen() {
    let r = Raster::new(100, 50);
    assert_eq!(r.clamp_pixel(-3, 10), (0, 10));
    assert_eq!(r.clamp_pixel(100, 10), (99, 10));
    assert_eq!(r.clamp_pixel(10, -1), (10, 0));
    assert_eq!(r.clamp_pixel(10, 50), (10, 49));
    assert_eq!(r.clamp_pixel(i32::MIN, i32::MAX), (0, 49));
}

// The coordinate (10.0, 10.0) on a 100x100 grid over -1.0..=1.0 lands at the
// raw pixel position (550, -450): far off screen on both axes, clamped to the
// top-right corner under the y-inversion of the grid.
#[test]
fn clamp_far_coordinate_hits_top_right_corner() {
    let r = Raster::new(100, 100);
    assert_eq!(r.clamp_pixel(550, -450), (99, 0));
}

#[test]
fn inflate_grows_an_interior_box() {
    let r = Raster::new(100, 100);
    let (xr, yr) = r.inflate_bounding_box((10, 20), (30, 40), 2);
    assert_eq!(xr, (8, 22));
    assert_eq!(yr, (28, 42));
}

#[test]
fn inflate_clamps_to_the_screen_edges() {
    let r = Raster::new(100, 100);
    let (xr, yr) = r.inflate_bounding_box((1, 98), (0, 99), 2);
    assert_eq!(xr, (0, 99));
    assert_eq!(yr, (0, 99));
}

#[test]
fn inflate_saturates_near_the_numeric_limits() {
    let r = Raster::new(100, 100);
    let (xr, yr) = r.inflate_bounding_box((0, usize::MAX), (usize::MAX, usize::MAX), 5);
    assert_eq!(xr, (0, 99));
    assert_eq!(yr, (usize::MAX - 5, 99));
}

#[test]
fn inflate_by_zero_keeps_an_in_range_box() {
    let r = Raster::new(100, 100);
    let (xr, yr) = r.inflate_bounding_box((10, 20), (30, 40), 0);
    assert_eq!(xr, (10, 20));
    assert_eq!(yr, (30, 40));
}

#[test]
fn one_pixel_raster_clamps_everything_to_origin() {
    let r = Raster::new(1, 1);
    assert_eq!(r.clamp_pixel(-5, 9), (0, 0));
    assert_eq!(r.classify_pixel(0, 0), Ok((0, 0)));
    assert_eq!(r.classify_pixel(1, 0), Err((1, 0)));
}
