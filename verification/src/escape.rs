//! The escape-time evaluator: iterate `z <- z*z + c` from zero and report
//! the first iteration at which the squared magnitude of `z` exceeds the
//! escape threshold, or that the orbit stayed bounded for the whole budget.
use vstd::prelude::*;
use crate::fixed::{
    fx_div_trunc, norm2, div_scale_trunc, lemma_div_exact, lemma_fx_div_trunc_bound,
    lemma_fx_div_trunc_neg, SCALE,
};
use crate::mapping::POINT_LIMIT;
use crate::viewport::Point;

verus! {

/// The iteration budget.
pub const MAX_ITERATIONS: usize = 200;

/// Squared escape radius, four square units: once `|z|` passes two, the
/// orbit of the quadratic map is known to diverge.
pub const ESCAPE_THRESHOLD: i64 = 4_000_000_000_000;

/// Classification of one plane point: the orbit left the escape radius at
/// the given 0-based iteration, or never did within the budget.
#[derive(Clone, Copy, PartialEq, Eq, Structural, Debug)]
pub enum EscapeResult {
    Escaped(usize),
    Bounded,
}

/// The orbit of `c = cre + cim*i` under `z <- z*z + c`, starting from zero:
/// the pair returned is `z` after `n` iterations, in fixed-point units with
/// each squaring rounded toward zero. Truncation commutes with negation, so
/// the orbit of a conjugate is the conjugate of the orbit.
pub open spec fn orbit(cre: int, cim: int, n: nat) -> (int, int)
    decreases n,
{
    if n == 0 {
        (0int, 0int)
    } else {
        let prev = orbit(cre, cim, (n - 1) as nat);
        (fx_div_trunc(prev.0 * prev.0 - prev.1 * prev.1) + cre, fx_div_trunc(2 * prev.0 * prev.1)
            + cim)
    }
}

/// Squared magnitude of the orbit after `n` iterations.
pub open spec fn orbit_norm2(cre: int, cim: int, n: nat) -> int {
    let z = orbit(cre, cim, n);
    norm2(z.0, z.1)
}

/// The result of running the remaining budget from iteration `i`, all
/// earlier iterations having stayed inside the threshold.
pub open spec fn esc_from(cre: int, cim: int, i: nat) -> EscapeResult
    decreases MAX_ITERATIONS - i,
{
    if i >= MAX_ITERATIONS {
        EscapeResult::Bounded
    } else {
        if orbit_norm2(cre, cim, (i + 1) as nat) > ESCAPE_THRESHOLD {
            EscapeResult::Escaped(i as usize)
        } else {
            esc_from(cre, cim, i + 1)
        }
    }
}

/// What `compute_escape_time` returns: the classification of the whole run.
pub open spec fn escape_time_spec(cre: int, cim: int) -> EscapeResult {
    esc_from(cre, cim, 0)
}

/// Classify the point `c`: iterate `z <- z*z + c` from zero and return the
/// 0-based index of the first iteration whose result lies outside the escape
/// radius, or report that the orbit stayed inside for the whole budget.
pub fn compute_escape_time(c: Point) -> (r: EscapeResult)
    requires
        -POINT_LIMIT <= c.re <= POINT_LIMIT,
        -POINT_LIMIT <= c.im <= POINT_LIMIT,
    ensures
        r == escape_time_spec(c.re as int, c.im as int),
{
    let ghost cre: int = c.re as int;
    let ghost cim: int = c.im as int;
    let mut zre: i64 = 0;
    let mut zim: i64 = 0;
    let mut i: usize = 0;
    while i < MAX_ITERATIONS
        invariant
            -POINT_LIMIT <= c.re <= POINT_LIMIT,
            -POINT_LIMIT <= c.im <= POINT_LIMIT,
            cre == c.re as int,
            cim == c.im as int,
            0 <= i <= MAX_ITERATIONS,
            zre as int == orbit(cre, cim, i as nat).0,
            zim as int == orbit(cre, cim, i as nat).1,
            norm2(zre as int, zim as int) <= ESCAPE_THRESHOLD,
            esc_from(cre, cim, 0) == esc_from(cre, cim, i as nat),
        decreases MAX_ITERATIONS - i,
    {
        proof {
            assert(-2_000_000 <= zre as int <= 2_000_000 && -2_000_000 <= zim as int
                <= 2_000_000) by (nonlinear_arith)
                requires
                    (zre as int) * (zre as int) + (zim as int) * (zim as int)
                        <= 4_000_000_000_000,
            ;
            assert(0 <= (zre as int) * (zre as int) <= 4_000_000_000_000 && 0 <= (zim as int) * (
            zim as int) <= 4_000_000_000_000 && -8_000_000_000_000 <= (2 * zre as int) * (
            zim as int) <= 8_000_000_000_000) by (nonlinear_arith)
                requires
                    -2_000_000 <= zre as int <= 2_000_000,
                    -2_000_000 <= zim as int <= 2_000_000,
            ;
        }
        let sq_re: i64 = zre * zre;
        let sq_im: i64 = zim * zim;
        let cross: i64 = (2 * zre) * zim;
        proof {
            lemma_fx_div_trunc_bound((sq_re - sq_im) as int, 8_000_000_000_000);
            lemma_fx_div_trunc_bound(cross as int, 8_000_000_000_000);
        }
        let nre: i64 = div_scale_trunc((sq_re as i128) - (sq_im as i128)) + c.re;
        let nim: i64 = div_scale_trunc(cross as i128) + c.im;
        proof {
            assert(orbit(cre, cim, (i + 1) as nat).0 == nre as int && orbit(
                cre,
                cim,
                (i + 1) as nat,
            ).1 == nim as int);
            assert(0 <= (nre as i128) * (nre as i128)
                <= 16_810_000_000_000_000_000_000_000_000_000_000_000 && 0 <= (nim as i128) * (
            nim as i128) <= 16_810_000_000_000_000_000_000_000_000_000_000_000)
                by (nonlinear_arith)
                requires
                    -4_100_000_000_000_000_000 <= nre as i128 <= 4_100_000_000_000_000_000,
                    -4_100_000_000_000_000_000 <= nim as i128 <= 4_100_000_000_000_000_000,
            ;
        }
        zre = nre;
        zim = nim;
        let nsq: i128 = (zre as i128) * (zre as i128) + (zim as i128) * (zim as i128);
        if nsq > ESCAPE_THRESHOLD as i128 {
            return EscapeResult::Escaped(i);
        }
        i = i + 1;
    }
    EscapeResult::Bounded
}

/// The escape-radius guarantee: a point already outside the escape radius
/// escapes at the very first iteration, because the first iterate of the
/// orbit is the point itself.
pub proof fn lemma_escape_radius(cre: int, cim: int)
    requires
        norm2(cre, cim) > ESCAPE_THRESHOLD,
    ensures
        escape_time_spec(cre, cim) == EscapeResult::Escaped(0usize),
{
    lemma_div_exact(0, SCALE as int);
    assert(orbit(cre, cim, 0) == (0int, 0int));
    assert(orbit(cre, cim, 1).0 == cre && orbit(cre, cim, 1).1 == cim);
}

/// The orbit of the origin never leaves the origin.
pub proof fn lemma_orbit_of_origin(n: nat)
    ensures
        orbit(0, 0, n).0 == 0 && orbit(0, 0, n).1 == 0,
    decreases n,
{
    if n > 0 {
        lemma_orbit_of_origin((n - 1) as nat);
        lemma_div_exact(0, SCALE as int);
    }
}

proof fn lemma_esc_from_origin(i: nat)
    ensures
        esc_from(0, 0, i) == EscapeResult::Bounded,
    decreases MAX_ITERATIONS - i,
{
    if i < MAX_ITERATIONS {
        lemma_orbit_of_origin(i + 1);
        lemma_esc_from_origin(i + 1);
    }
}

proof fn lemma_first_escape(cre: int, cim: int, i: nat)
    requires
        i <= MAX_ITERATIONS,
    ensures
        esc_from(cre, cim, i) is Escaped ==> {
            let n = esc_from(cre, cim, i)->Escaped_0;
            &&& i <= n < MAX_ITERATIONS
            &&& orbit_norm2(cre, cim, (n + 1) as nat) > ESCAPE_THRESHOLD
            &&& forall|j: nat|
                i <= j < n ==> #[trigger] orbit_norm2(cre, cim, (j + 1) as nat)
                    <= ESCAPE_THRESHOLD
        },
        esc_from(cre, cim, i) is Bounded ==> forall|j: nat|
            i <= j < MAX_ITERATIONS ==> #[trigger] orbit_norm2(cre, cim, (j + 1) as nat)
                <= ESCAPE_THRESHOLD,
    decreases MAX_ITERATIONS - i,
{
    if i < MAX_ITERATIONS {
        if orbit_norm2(cre, cim, (i + 1) as nat) <= ESCAPE_THRESHOLD {
            lemma_first_escape(cre, cim, i + 1);
        }
    }
}

/// What the classification means: `Escaped(n)` names exactly the first
/// iteration whose orbit leaves the escape radius, and `Bounded` says that
/// no iteration within the budget does.
pub proof fn lemma_escape_time_is_first_escape(cre: int, cim: int)
    ensures
        escape_time_spec(cre, cim) is Escaped ==> {
            let n = escape_time_spec(cre, cim)->Escaped_0;
            &&& n < MAX_ITERATIONS
            &&& orbit_norm2(cre, cim, (n + 1) as nat) > ESCAPE_THRESHOLD
            &&& forall|j: nat|
                j < n ==> #[trigger] orbit_norm2(cre, cim, (j + 1) as nat) <= ESCAPE_THRESHOLD
        },
        escape_time_spec(cre, cim) is Bounded ==> forall|j: nat|
            j < MAX_ITERATIONS ==> #[trigger] orbit_norm2(cre, cim, (j + 1) as nat)
                <= ESCAPE_THRESHOLD,
{
    lemma_first_escape(cre, cim, 0);
}

/// The orbit of the complex conjugate of a point is, step for step, the
/// conjugate of the point's orbit.
pub proof fn lemma_orbit_conjugate(cre: int, cim: int, n: nat)
    ensures
        orbit(cre, -cim, n).0 == orbit(cre, cim, n).0,
        orbit(cre, -cim, n).1 == -orbit(cre, cim, n).1,
    decreases n,
{
    if n > 0 {
        lemma_orbit_conjugate(cre, cim, (n - 1) as nat);
        let p = orbit(cre, cim, (n - 1) as nat);
        assert((-p.1) * (-p.1) == p.1 * p.1) by (nonlinear_arith);
        assert(2 * p.0 * (-p.1) == -(2 * p.0 * p.1)) by (nonlinear_arith);
        lemma_fx_div_trunc_neg(2 * p.0 * p.1);
    }
}

proof fn lemma_esc_from_conjugate(cre: int, cim: int, i: nat)
    ensures
        esc_from(cre, -cim, i) == esc_from(cre, cim, i),
    decreases MAX_ITERATIONS - i,
{
    if i < MAX_ITERATIONS {
        lemma_orbit_conjugate(cre, cim, i + 1);
        let z = orbit(cre, cim, (i + 1) as nat);
        assert((-z.1) * (-z.1) == z.1 * z.1) by (nonlinear_arith);
        if orbit_norm2(cre, cim, (i + 1) as nat) <= ESCAPE_THRESHOLD {
            lemma_esc_from_conjugate(cre, cim, i + 1);
        }
    }
}

/// Conjugation symmetry: a point and its complex conjugate always classify
/// identically, down to the escape iteration, so rendered frames are
/// mirror-symmetric across the real axis.
pub proof fn lemma_conjugation_symmetry(cre: int, cim: int)
    ensures
        escape_time_spec(cre, -cim) == escape_time_spec(cre, cim),
{
    lemma_esc_from_conjugate(cre, cim, 0);
}

/// The origin stays bounded for the whole budget.
pub proof fn lemma_origin_bounded()
    ensures
        escape_time_spec(0, 0) == EscapeResult::Bounded,
{
    lemma_esc_from_origin(0);
}

} // verus!
