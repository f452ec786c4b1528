//! The coordinate mapper: a pure affine transform from (possibly fractional)
//! pixel coordinates to points of the complex plane, honouring the vertical
//! flip between pixel rows (which grow downward) and the imaginary axis
//! (which grows upward). The plane offset is computed with a single wide
//! floor division, `radius * offset / (min_dim * SCALE)`, so its rounding
//! error is one millionth whatever the dimensions, and deep zooms never
//! collapse to a constant map.
use vstd::prelude::*;
use vstd::arithmetic::div_mod::{
    lemma_div_is_ordered, lemma_div_is_ordered_by_denominator, lemma_div_of0,
    lemma_fundamental_div_mod,
};
use crate::fixed::{div_wide, SCALE, HALF_SCALE, DIV_INPUT_LIMIT};
use crate::fixed::{lemma_div_exact, lemma_div_floor_bound, lemma_div_step_down};
use crate::viewport::{Point, Viewport, COORD_LIMIT};

verus! {

/// Largest buffer dimension the renderer accepts, in pixels.
pub const DIM_LIMIT: u32 = 65_535;

/// Every point the mapper produces stays within this magnitude per part.
pub const POINT_LIMIT: i64 = 4_000_000_000_000_000_000;

/// The shorter of the two buffer dimensions.
pub open spec fn min_dim(w: u32, h: u32) -> int {
    if h < w {
        h as int
    } else {
        w as int
    }
}

/// Plane distance shown by a pixel offset of `d` from the buffer center:
/// the viewport radius spread over the shorter buffer dimension, in one
/// exact product and one floor division.
pub open spec fn plane_offset(v: Viewport, w: u32, h: u32, d: int) -> int {
    (v.radius * d) / (min_dim(w, h) * (SCALE as int))
}

/// The fixed-point coordinate of the buffer midpoint of a dimension of `d`
/// pixels.
pub open spec fn half_units(d: u32) -> int {
    (d as int) * (HALF_SCALE as int)
}

/// Real part of the plane point of pixel coordinate `x`.
pub open spec fn point_re(x: int, w: u32, h: u32, v: Viewport) -> int {
    v.center.re - plane_offset(v, w, h, half_units(w) - x)
}

/// Imaginary part of the plane point of pixel coordinate `y`; the sign is
/// flipped relative to the real part because pixel rows grow downward.
pub open spec fn point_im(y: int, w: u32, h: u32, v: Viewport) -> int {
    v.center.im + plane_offset(v, w, h, half_units(h) - y)
}

/// Map the pixel coordinate `(x, y)` (fixed-point, so fractional positions
/// such as cursor readings are welcome and nothing requires the coordinate
/// to lie inside the buffer) to the plane point it shows.
pub fn pixel_to_point(x: i64, y: i64, buffer_width: u32, buffer_height: u32, viewport: &Viewport)
    -> (p: Point)
    requires
        viewport.wf(),
        viewport.bounded(),
        0 < buffer_width <= DIM_LIMIT,
        0 < buffer_height <= DIM_LIMIT,
        -COORD_LIMIT <= x <= COORD_LIMIT,
        -COORD_LIMIT <= y <= COORD_LIMIT,
    ensures
        p.re == point_re(x as int, buffer_width, buffer_height, *viewport),
        p.im == point_im(y as int, buffer_width, buffer_height, *viewport),
        -POINT_LIMIT <= p.re <= POINT_LIMIT,
        -POINT_LIMIT <= p.im <= POINT_LIMIT,
{
    let m: u32 = if buffer_height < buffer_width {
        buffer_height
    } else {
        buffer_width
    };
    let divisor: i64 = (m as i64) * SCALE;
    let halfw: i64 = (buffer_width as i64) * HALF_SCALE;
    let halfh: i64 = (buffer_height as i64) * HALF_SCALE;
    let dx: i64 = halfw - x;
    let dy: i64 = halfh - y;
    proof {
        assert(-DIV_INPUT_LIMIT <= (viewport.radius as i128) * (dx as i128) <= DIV_INPUT_LIMIT
            && -DIV_INPUT_LIMIT <= (viewport.radius as i128) * (dy as i128) <= DIV_INPUT_LIMIT)
            by (nonlinear_arith)
            requires
                0 <= viewport.radius as i128 <= COORD_LIMIT as i128,
                -2 * (COORD_LIMIT as i128) <= dx as i128 <= 2 * (COORD_LIMIT as i128),
                -2 * (COORD_LIMIT as i128) <= dy as i128 <= 2 * (COORD_LIMIT as i128),
        ;
    }
    let px: i128 = (viewport.radius as i128) * (dx as i128);
    let py: i128 = (viewport.radius as i128) * (dy as i128);
    proof {
        lemma_div_floor_bound(px as int, DIV_INPUT_LIMIT as int, divisor as int);
        lemma_div_floor_bound(py as int, DIV_INPUT_LIMIT as int, divisor as int);
        lemma_div_is_ordered_by_denominator(DIV_INPUT_LIMIT as int, SCALE as int, divisor as int);
    }
    let ore: i64 = div_wide(px, divisor);
    let oim: i64 = div_wide(py, divisor);
    Point { re: viewport.center.re - ore, im: viewport.center.im + oim }
}

/// The exact center pixel of the buffer maps exactly to the viewport center.
pub proof fn lemma_center_pixel(v: Viewport, w: u32, h: u32)
    requires
        0 < w,
        0 < h,
    ensures
        point_re(half_units(w), w, h, v) == v.center.re,
        point_im(half_units(h), w, h, v) == v.center.im,
{
    let dd = min_dim(w, h) * (SCALE as int);
    assert(0 < min_dim(w, h) * (SCALE as int)) by (nonlinear_arith)
        requires
            1 <= min_dim(w, h),
            SCALE == 1_000_000i64,
    ;
    assert(v.radius * (half_units(w) - half_units(w)) == 0) by (nonlinear_arith);
    assert(v.radius * (half_units(h) - half_units(h)) == 0) by (nonlinear_arith);
    lemma_div_of0(dd);
}

/// The map is affine: doubling a pixel offset from the buffer center doubles
/// the plane offset from the viewport center, whenever the single fixed-point
/// division involved is exact.
pub proof fn lemma_pixel_map_affine(v: Viewport, w: u32, h: u32, dx: int, dy: int)
    requires
        0 < w,
        0 < h,
        (v.radius * dx) % (min_dim(w, h) * (SCALE as int)) == 0,
        (v.radius * dy) % (min_dim(w, h) * (SCALE as int)) == 0,
    ensures
        point_re(half_units(w) - 2 * dx, w, h, v) - v.center.re == 2 * (point_re(
            half_units(w) - dx,
            w,
            h,
            v,
        ) - v.center.re),
        point_im(half_units(h) - 2 * dy, w, h, v) - v.center.im == 2 * (point_im(
            half_units(h) - dy,
            w,
            h,
            v,
        ) - v.center.im),
{
    let dd = min_dim(w, h) * (SCALE as int);
    assert(0 < min_dim(w, h) * (SCALE as int)) by (nonlinear_arith)
        requires
            1 <= min_dim(w, h),
            SCALE == 1_000_000i64,
    ;
    lemma_fundamental_div_mod(v.radius * dx, dd);
    lemma_fundamental_div_mod(v.radius * dy, dd);
    let kx = plane_offset(v, w, h, dx);
    let ky = plane_offset(v, w, h, dy);
    assert(v.radius * (2 * dx) == (2 * kx) * dd) by (nonlinear_arith)
        requires
            v.radius * dx == dd * kx,
    ;
    assert(v.radius * (2 * dy) == (2 * ky) * dd) by (nonlinear_arith)
        requires
            v.radius * dy == dd * ky,
    ;
    lemma_div_exact(2 * kx, dd);
    lemma_div_exact(2 * ky, dd);
    assert(half_units(w) - (half_units(w) - dx) == dx);
    assert(half_units(w) - (half_units(w) - 2 * dx) == 2 * dx);
}

/// The vertical axis is inverted: moving down the buffer never raises the
/// imaginary part, and lowers it strictly as soon as the step spans at least
/// one whole fixed-point unit of plane distance.
pub proof fn lemma_vertical_axis(v: Viewport, w: u32, h: u32, y1: int, y2: int)
    requires
        v.wf(),
        0 < w,
        0 < h,
        y1 < y2,
    ensures
        point_im(y2, w, h, v) <= point_im(y1, w, h, v),
        v.radius * (y2 - y1) >= min_dim(w, h) * (SCALE as int) ==> point_im(y2, w, h, v)
            < point_im(y1, w, h, v),
{
    let dd = min_dim(w, h) * (SCALE as int);
    assert(0 < min_dim(w, h) * (SCALE as int)) by (nonlinear_arith)
        requires
            1 <= min_dim(w, h),
            SCALE == 1_000_000i64,
    ;
    let a = v.radius * (half_units(h) - y2);
    let b = v.radius * (half_units(h) - y1);
    assert(b - a == v.radius * (y2 - y1) && v.radius * (y2 - y1) >= 0) by (nonlinear_arith)
        requires
            a == v.radius * (half_units(h) - y2),
            b == v.radius * (half_units(h) - y1),
            v.radius > 0,
            y2 - y1 > 0,
    ;
    lemma_div_is_ordered(a, b, dd);
    if v.radius * (y2 - y1) >= dd {
        lemma_div_step_down(a, b, dd);
    }
}

} // verus!
