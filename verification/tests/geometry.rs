//! The coordinate mapper and the zoom transform on concrete values.
//! Coordinates are fixed-point integers counted in millionths.
use fractal::mapping::pixel_to_point;
use fractal::viewport::{Point, Viewport};

/// The exact center pixel of the buffer maps to the viewport center.
#[test]
fn center_pixel_maps_to_viewport_center() {
    let vp = Viewport::new(Point { re: 1_000_000, im: 2_000_000 }, 2_500_000);
    // 1600x900 buffer: the center pixel is (800.0, 450.0).
    let p = pixel_to_point(800_000_000, 450_000_000, 1600, 900, &vp);
    assert_eq!(p, Point { re: 1_000_000, im: 2_000_000 });
}

/// Doubling a pixel offset from the buffer center doubles the plane offset.
#[test]
fn pixel_map_is_affine() {
    // radius 900 units over a 900-pixel short side: exactly one unit per pixel.
    let vp = Viewport::new(Point { re: 0, im: 0 }, 900_000_000);
    let half_x: i64 = 800_000_000;
    let one_px: i64 = 1_000_000;
    let p1 = pixel_to_point(half_x - one_px, 0, 1600, 900, &vp);
    let p2 = pixel_to_point(half_x - 2 * one_px, 0, 1600, 900, &vp);
    assert_eq!(p1.re, -1_000_000);
    assert_eq!(p2.re, -2_000_000);
    assert_eq!(p2.re, 2 * p1.re);
}

/// Moving down one pixel row strictly decreases the imaginary part.
#[test]
fn vertical_axis_is_inverted() {
    let vp = Viewport::new(Point { re: 0, im: 0 }, 900_000_000);
    let p_top = pixel_to_point(800_000_000, 449_000_000, 1600, 900, &vp);
    let p_mid = pixel_to_point(800_000_000, 450_000_000, 1600, 900, &vp);
    let p_low = pixel_to_point(800_000_000, 451_000_000, 1600, 900, &vp);
    assert_eq!(p_top.im, 1_000_000);
    assert_eq!(p_mid.im, 0);
    assert_eq!(p_low.im, -1_000_000);
    assert!(p_low.im < p_mid.im && p_mid.im < p_top.im);
}

/// A non-square buffer spreads the radius over the shorter dimension.
#[test]
fn scale_uses_shorter_dimension() {
    // radius 2 units, 200x100 buffer: one pixel is 0.02 units.
    let vp = Viewport::new(Point { re: 0, im: 0 }, 2_000_000);
    let p = pixel_to_point(0, 50_000_000, 200, 100, &vp);
    // 100 pixels left of center: 100 * 0.02 = 2 units.
    assert_eq!(p, Point { re: -2_000_000, im: 0 });
}

/// Zooming with a factor of exactly one changes nothing.
#[test]
fn zoom_by_one_is_identity() {
    let mut vp = Viewport::default();
    vp.zoom(Point { re: 3_000_000, im: -4_000_000 }, 1_000_000);
    assert_eq!(vp.center, Point { re: 0, im: 0 });
    assert_eq!(vp.radius, 5_000_000);
}

/// Zooming in toward a point pulls the center toward it and shrinks the
/// radius.
#[test]
fn zoom_in_toward_point() {
    let mut vp = Viewport::default();
    vp.zoom(Point { re: 1_000_000, im: 0 }, 900_000);
    assert_eq!(vp.radius, 4_500_000);
    assert_eq!(vp.center, Point { re: 100_000, im: 0 });
}

/// A zoomed-out radius that reaches the ceiling is pinned to it.
#[test]
fn zoom_out_pins_radius_to_ceiling() {
    let mut vp = Viewport::default();
    vp.zoom(Point { re: 0, im: 0 }, 2_000_000);
    assert_eq!(vp.radius, 6_000_000);
    assert_eq!(vp.center, Point { re: 0, im: 0 });
}

/// A candidate center beyond the center ceiling is rejected outright while
/// the radius still updates: the two acceptance tests are independent.
#[test]
fn runaway_center_is_rejected_independently() {
    let mut vp = Viewport::new(Point { re: 2_800_000, im: 0 }, 5_000_000);
    vp.zoom(Point { re: 1_000_000_000, im: 0 }, 1_100_000);
    assert_eq!(vp.radius, 5_500_000);
    assert_eq!(vp.center, Point { re: 2_800_000, im: 0 });
}

/// Repeated zooming out never drives the radius above its ceiling nor the
/// center past its squared-magnitude ceiling.
#[test]
fn repeated_zoom_out_respects_ceilings() {
    let mut vp = Viewport::default();
    for _ in 0..50 {
        vp.zoom(Point { re: 1_000_000, im: 1_000_000 }, 1_100_000);
        assert!(vp.radius <= 6_000_000);
        let nsq = (vp.center.re as i128) * (vp.center.re as i128)
            + (vp.center.im as i128) * (vp.center.im as i128);
        assert!(nsq < 8_000_000_000_000);
    }
}

/// Zooming in can never extinguish the radius: it is pinned at the
/// positive floor of one millionth, so the invariant `radius > 0` survives.
#[test]
fn zoom_in_never_extinguishes_radius() {
    let mut vp = Viewport::new(Point { re: 0, im: 0 }, 1_000);
    vp.zoom(Point { re: 0, im: 0 }, 500);
    assert_eq!(vp.radius, 1);
    vp.zoom(Point { re: 0, im: 0 }, 500);
    assert_eq!(vp.radius, 1);
}

/// The zoomed-toward point keeps its relative position to within one
/// millionth: a half-unit product rounds up, leaving the center in place.
#[test]
fn zoom_toward_point_keeps_it_within_one_unit() {
    let mut vp = Viewport::default();
    vp.zoom(Point { re: 1, im: 0 }, 500_000);
    assert_eq!(vp.center, Point { re: 0, im: 0 });
    assert_eq!(vp.radius, 2_500_000);
}

/// The top-center pixel lies exactly half the radius above the center: the
/// single wide division loses nothing to a per-pixel scale.
#[test]
fn top_edge_offset_is_half_radius() {
    let vp = Viewport::new(Point { re: 0, im: 0 }, 2_000_000);
    let p = pixel_to_point(100_000_000, 0, 200, 100, &vp);
    assert_eq!(p, Point { re: 0, im: 1_000_000 });
}

/// A radius below one unit per pixel still maps distinct pixels to
/// distinct points instead of collapsing to the center.
#[test]
fn deep_zoom_keeps_sub_pixel_granularity() {
    let vp = Viewport::new(Point { re: 0, im: 0 }, 999);
    let left_edge = pixel_to_point(0, 50_000_000, 200, 100, &vp);
    assert_eq!(left_edge, Point { re: -999, im: 0 });
    let one_px_left = pixel_to_point(99_000_000, 50_000_000, 200, 100, &vp);
    assert_eq!(one_px_left.re, -9);
}
