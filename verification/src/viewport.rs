//! The visible region of the complex plane: a center point and the radius of
//! the largest circle around it that the buffer shows, plus the zoom
//! transform with its independent clamping of radius and center.
use vstd::prelude::*;
use vstd::arithmetic::div_mod::lemma_hoist_over_denominator;
use crate::fixed::{fx_div, norm2, div_scale, SCALE, DIV_INPUT_LIMIT};
use crate::fixed::{lemma_div_exact, lemma_div_neg, lemma_fx_div_bound};

verus! {

/// A complex number `re + im*i`, both parts in fixed-point units.
#[derive(Clone, Copy, PartialEq, Eq, Structural, Debug)]
pub struct Point {
    pub re: i64,
    pub im: i64,
}

/// Radius of the default view, five whole units.
pub const DEFAULT_RADIUS: i64 = 5_000_000;

/// A zoomed-out radius is accepted only below this ceiling, six whole units.
pub const RADIUS_CEILING: i64 = 6_000_000;

/// A zoomed-in radius never falls below this floor, one millionth of a
/// unit: the viewport always keeps a positive extent.
pub const RADIUS_FLOOR: i64 = 1;

/// A re-centered viewport is accepted only while the squared magnitude of its
/// center stays below this ceiling, eight square units.
pub const CENTER_NORM_CEILING: i64 = 8_000_000_000_000;

/// Largest coordinate magnitude (one million whole units) the transforms
/// accept; far beyond anything a sane view reaches, it only keeps the
/// intermediate products inside machine integers.
pub const COORD_LIMIT: i64 = 1_000_000_000_000;

/// Largest zoom factor (one thousand whole units) the transform accepts.
pub const ZOOM_FACTOR_LIMIT: i64 = 1_000_000_000;

/// The visible region: `center` maps to the middle of the buffer and
/// `radius` is the plane distance from `center` to the nearest buffer edge.
#[derive(Clone, Copy, PartialEq, Eq, Structural, Debug)]
pub struct Viewport {
    pub center: Point,
    pub radius: i64,
}

/// The default view: centered on the origin, radius of five whole units.
pub open spec fn default_viewport() -> Viewport {
    Viewport { center: Point { re: 0, im: 0 }, radius: DEFAULT_RADIUS }
}

/// The radius that a zoom by `factor` leaves behind: the scaled radius,
/// pinned to the ceiling when it has reached it and to the positive floor
/// when rounding would extinguish it.
pub open spec fn zoom_radius(v: Viewport, factor: i64) -> int {
    let nr = fx_div(v.radius * factor);
    if nr < RADIUS_FLOOR {
        RADIUS_FLOOR as int
    } else if nr < RADIUS_CEILING {
        nr
    } else {
        RADIUS_CEILING as int
    }
}

/// Real part of the candidate center of a zoom toward `toward` by `factor`.
pub open spec fn zoom_center_re(v: Viewport, toward: Point, factor: i64) -> int {
    v.center.re + fx_div((SCALE - factor) * (toward.re - v.center.re))
}

/// Imaginary part of the candidate center of a zoom toward `toward` by `factor`.
pub open spec fn zoom_center_im(v: Viewport, toward: Point, factor: i64) -> int {
    v.center.im + fx_div((SCALE - factor) * (toward.im - v.center.im))
}

/// Whether the candidate center is accepted: its squared magnitude must stay
/// below the ceiling; otherwise the whole center update is rejected.
pub open spec fn zoom_center_accepted(v: Viewport, toward: Point, factor: i64) -> bool {
    norm2(zoom_center_re(v, toward, factor), zoom_center_im(v, toward, factor))
        < CENTER_NORM_CEILING
}

impl Viewport {
    /// The structural invariant: a viewport always shows some positive extent.
    pub open spec fn wf(self) -> bool {
        self.radius > 0
    }

    /// Machine bounds under which the transforms cannot overflow.
    pub open spec fn bounded(self) -> bool {
        &&& self.radius <= COORD_LIMIT
        &&& -COORD_LIMIT <= self.center.re <= COORD_LIMIT
        &&& -COORD_LIMIT <= self.center.im <= COORD_LIMIT
    }

    pub fn default() -> (v: Viewport)
        ensures
            v == default_viewport(),
            v.wf(),
            v.bounded(),
    {
        Viewport { center: Point { re: 0, im: 0 }, radius: DEFAULT_RADIUS }
    }

    pub fn new(center: Point, radius: i64) -> (v: Viewport)
        requires
            radius > 0,
        ensures
            v.center == center,
            v.radius == radius,
            v.wf(),
    {
        Viewport { center, radius }
    }

    /// Zoom toward `toward` by `factor` (in fixed-point units of one):
    /// distances from `toward` scale by `factor`, so `toward` stays put;
    /// a factor below one zooms in, above one zooms out. The new radius is
    /// pinned to `RADIUS_CEILING` when the scaled radius reaches it and to
    /// the positive `RADIUS_FLOOR` when rounding would extinguish it, so
    /// the invariant `radius > 0` survives every zoom; the new center is
    /// dropped entirely when its squared magnitude reaches
    /// `CENTER_NORM_CEILING`. The radius and center tests are independent.
    pub fn zoom(&mut self, toward: Point, factor: i64)
        requires
            old(self).wf(),
            old(self).bounded(),
            -COORD_LIMIT <= toward.re <= COORD_LIMIT,
            -COORD_LIMIT <= toward.im <= COORD_LIMIT,
            0 <= factor <= ZOOM_FACTOR_LIMIT,
        ensures
            final(self).radius == zoom_radius(*old(self), factor),
            zoom_center_accepted(*old(self), toward, factor) ==> {
                &&& final(self).center.re == zoom_center_re(*old(self), toward, factor)
                &&& final(self).center.im == zoom_center_im(*old(self), toward, factor)
            },
            !zoom_center_accepted(*old(self), toward, factor) ==> final(self).center == old(
                self,
            ).center,
            final(self).wf(),
            final(self).bounded(),
    {
        proof {
            assert(0 <= (self.radius as i128) * (factor as i128) <= DIV_INPUT_LIMIT)
                by (nonlinear_arith)
                requires
                    0 < self.radius as i128 <= COORD_LIMIT as i128,
                    0 <= factor as i128 <= ZOOM_FACTOR_LIMIT as i128,
            ;
        }
        let rprod: i128 = (self.radius as i128) * (factor as i128);
        let new_radius: i64 = div_scale(rprod);

        let shrink: i64 = SCALE - factor;
        let dre: i64 = toward.re - self.center.re;
        let dim: i64 = toward.im - self.center.im;
        proof {
            assert(-DIV_INPUT_LIMIT <= (shrink as i128) * (dre as i128) <= DIV_INPUT_LIMIT
                && -DIV_INPUT_LIMIT <= (shrink as i128) * (dim as i128) <= DIV_INPUT_LIMIT)
                by (nonlinear_arith)
                requires
                    -(ZOOM_FACTOR_LIMIT as i128) <= shrink as i128 <= SCALE as i128,
                    -2 * (COORD_LIMIT as i128) <= dre as i128 <= 2 * (COORD_LIMIT as i128),
                    -2 * (COORD_LIMIT as i128) <= dim as i128 <= 2 * (COORD_LIMIT as i128),
            ;
        }
        let pre: i128 = (shrink as i128) * (dre as i128);
        let pim: i128 = (shrink as i128) * (dim as i128);
        proof {
            lemma_fx_div_bound(pre as int, DIV_INPUT_LIMIT as int);
            lemma_fx_div_bound(pim as int, DIV_INPUT_LIMIT as int);
        }
        let cre: i64 = self.center.re + div_scale(pre);
        let cim: i64 = self.center.im + div_scale(pim);
        proof {
            let lim: int = COORD_LIMIT + (DIV_INPUT_LIMIT as int) / (SCALE as int) + 1;
            assert(lim <= 3_000_000_000_000_000_000);
            assert(0 <= (cre as i128) * (cre as i128) <= lim * lim) by (nonlinear_arith)
                requires
                    -lim <= cre as i128 <= lim,
                    0 < lim,
            ;
            assert(0 <= (cim as i128) * (cim as i128) <= lim * lim) by (nonlinear_arith)
                requires
                    -lim <= cim as i128 <= lim,
                    0 < lim,
            ;
            assert(lim * lim <= 9_000_000_000_000_000_000_000_000_000_000_000_000)
                by (nonlinear_arith)
                requires
                    0 < lim <= 3_000_000_000_000_000_000,
            ;
        }
        let nsq: i128 = (cre as i128) * (cre as i128) + (cim as i128) * (cim as i128);
        proof {
            assert(nsq == norm2(cre as int, cim as int));
        }

        self.radius = if new_radius < RADIUS_FLOOR {
            RADIUS_FLOOR
        } else if new_radius < RADIUS_CEILING {
            new_radius
        } else {
            RADIUS_CEILING
        };
        if nsq < CENTER_NORM_CEILING as i128 {
            self.center = Point { re: cre, im: cim };
        }
        proof {
            assert(final(self).bounded()) by {
                assert(-COORD_LIMIT <= cre <= COORD_LIMIT || nsq >= CENTER_NORM_CEILING as i128)
                    by (nonlinear_arith)
                    requires
                        nsq == (cre as i128) * (cre as i128) + (cim as i128) * (cim as i128),
                        CENTER_NORM_CEILING as i128 == 8_000_000_000_000i128,
                        COORD_LIMIT as i128 == 1_000_000_000_000i128,
                ;
                assert(-COORD_LIMIT <= cim <= COORD_LIMIT || nsq >= CENTER_NORM_CEILING as i128)
                    by (nonlinear_arith)
                    requires
                        nsq == (cre as i128) * (cre as i128) + (cim as i128) * (cim as i128),
                        CENTER_NORM_CEILING as i128 == 8_000_000_000_000i128,
                        COORD_LIMIT as i128 == 1_000_000_000_000i128,
                ;
            }
        }
    }
}

/// Zooming with a factor of exactly one moves nothing: the scaled radius is
/// the old radius (which is at or below the ceiling), and the candidate
/// center is the old center, so the viewport is unchanged whichever way the
/// acceptance tests fall.
pub proof fn lemma_zoom_identity(v: Viewport, toward: Point)
    requires
        v.wf(),
        v.radius <= RADIUS_CEILING,
    ensures
        zoom_radius(v, SCALE) == v.radius,
        zoom_center_re(v, toward, SCALE) == v.center.re,
        zoom_center_im(v, toward, SCALE) == v.center.im,
{
    lemma_div_exact(v.radius as int, SCALE as int);
    assert((SCALE - SCALE) * (toward.re - v.center.re) == 0) by (nonlinear_arith);
    assert((SCALE - SCALE) * (toward.im - v.center.im) == 0) by (nonlinear_arith);
    lemma_div_exact(0, SCALE as int);
}

/// The anti-runaway safeguard: whatever the zoom parameters, the radius that
/// comes out never exceeds the radius ceiling, and a center whose squared
/// magnitude is below the center ceiling can only be replaced by one that
/// also is. `after` is any viewport that satisfies the postconditions of
/// `Viewport::zoom`, so the bounds hold along any chain of zooms.
pub proof fn lemma_zoom_ceilings(v: Viewport, toward: Point, factor: i64, after: Viewport)
    requires
        after.radius == zoom_radius(v, factor),
        zoom_center_accepted(v, toward, factor) ==> {
            &&& after.center.re == zoom_center_re(v, toward, factor)
            &&& after.center.im == zoom_center_im(v, toward, factor)
        },
        !zoom_center_accepted(v, toward, factor) ==> after.center == v.center,
        norm2(v.center.re as int, v.center.im as int) < CENTER_NORM_CEILING,
    ensures
        RADIUS_FLOOR <= after.radius <= RADIUS_CEILING,
        norm2(after.center.re as int, after.center.im as int) < CENTER_NORM_CEILING,
{
}

proof fn lemma_zoom_toward_offset(c: int, t: int, factor: i64)
    ensures
        fx_div(factor * (t - c)) <= t - (c + fx_div((SCALE - factor) * (t - c))),
        t - (c + fx_div((SCALE - factor) * (t - c))) <= fx_div(factor * (t - c)) + 1,
{
    let d = t - c;
    let m = factor * d;
    assert((SCALE - factor) * d == -m + d * (SCALE as int)) by (nonlinear_arith)
        requires
            m == factor * d,
    ;
    lemma_hoist_over_denominator(-m, d, SCALE as nat);
    lemma_div_neg(m, SCALE as int);
}

/// What does hold of the zoomed-toward point: when the center update is
/// accepted, the distance from the new center to `toward` is `factor`
/// times the old distance, rounded up to the next fixed-point unit — so
/// the toward point keeps its relative position in the viewport to within
/// one millionth per part.
pub proof fn lemma_zoom_keeps_toward(v: Viewport, toward: Point, factor: i64)
    ensures
        fx_div(factor * (toward.re - v.center.re)) <= toward.re - zoom_center_re(
            v,
            toward,
            factor,
        ) <= fx_div(factor * (toward.re - v.center.re)) + 1,
        fx_div(factor * (toward.im - v.center.im)) <= toward.im - zoom_center_im(
            v,
            toward,
            factor,
        ) <= fx_div(factor * (toward.im - v.center.im)) + 1,
{
    lemma_zoom_toward_offset(v.center.re as int, toward.re as int, factor);
    lemma_zoom_toward_offset(v.center.im as int, toward.im as int, factor);
}

} // verus!
