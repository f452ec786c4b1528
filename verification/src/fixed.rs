//! Fixed-point arithmetic: plane coordinates, radii and zoom factors are
//! signed integers counted in millionths, so that every computation the
//! renderer performs is exact integer arithmetic. Two roundings are used:
//! floor division for the viewport transforms and the pixel mapper, and
//! truncation toward zero for the orbit iteration, whose symmetry under
//! negation makes the escape classification conjugation-symmetric.
use vstd::prelude::*;
use vstd::arithmetic::div_mod::{
    lemma_div_is_ordered, lemma_div_is_ordered_by_denominator, lemma_div_plus_one,
    lemma_div_pos_is_pos, lemma_fundamental_div_mod, lemma_fundamental_div_mod_converse_div,
};

verus! {

/// Number of fixed-point units that make up the value one.
pub const SCALE: i64 = 1_000_000;

/// Half of `SCALE`; `d * HALF_SCALE` is the exact fixed-point value of `d / 2`.
pub const HALF_SCALE: i64 = 500_000;

/// Largest magnitude `div_wide` accepts; every product the library forms
/// stays below it.
pub const DIV_INPUT_LIMIT: i128 = 2_000_000_000_000_000_000_000_000;

/// Division by `SCALE`, rounding toward negative infinity (the meaning of
/// `/` on `int`).
pub open spec fn fx_div(a: int) -> int {
    a / (SCALE as int)
}

/// Division by `SCALE`, rounding toward zero, so that negating the input
/// exactly negates the result.
pub open spec fn fx_div_trunc(a: int) -> int {
    if a >= 0 {
        a / (SCALE as int)
    } else {
        -((-a) / (SCALE as int))
    }
}

/// Squared magnitude of the complex number `re + im*i`, in squared units.
pub open spec fn norm2(re: int, im: int) -> int {
    re * re + im * im
}

/// Floor division of a wide intermediate product by a divisor of at least
/// one whole unit.
pub fn div_wide(a: i128, d: i64) -> (r: i64)
    requires
        SCALE <= d,
        -DIV_INPUT_LIMIT <= a <= DIV_INPUT_LIMIT,
    ensures
        r == a as int / d as int,
{
    let du: u128 = d as u128;
    if a >= 0 {
        let au: u128 = a as u128;
        let qu: u128 = au / du;
        proof {
            lemma_div_is_ordered(au as int, DIV_INPUT_LIMIT as int, d as int);
            lemma_div_is_ordered_by_denominator(
                DIV_INPUT_LIMIT as int,
                SCALE as int,
                d as int,
            );
        }
        qu as i64
    } else {
        let m: i128 = -a;
        let mu: u128 = m as u128;
        let qu: u128 = (mu + (du - 1)) / du;
        proof {
            lemma_div_is_ordered(
                mu as int + (d as int - 1),
                mu as int + d as int,
                d as int,
            );
            lemma_div_plus_one(mu as int, d as int);
            lemma_div_is_ordered(mu as int, DIV_INPUT_LIMIT as int, d as int);
            lemma_div_is_ordered_by_denominator(
                DIV_INPUT_LIMIT as int,
                SCALE as int,
                d as int,
            );
            let q0 = mu as int / (d as int);
            let r0 = mu as int % (d as int);
            lemma_fundamental_div_mod(mu as int, d as int);
            if r0 == 0 {
                assert(mu as int + (d as int - 1) == q0 * (d as int) + (d as int - 1)
                    && a as int == (-q0) * (d as int) + 0) by (nonlinear_arith)
                    requires
                        a as int == -(mu as int),
                        mu as int == (d as int) * q0 + r0,
                        r0 == 0,
                ;
                lemma_fundamental_div_mod_converse_div(
                    mu as int + (d as int - 1),
                    d as int,
                    q0,
                    d as int - 1,
                );
                lemma_fundamental_div_mod_converse_div(a as int, d as int, -q0, 0);
            } else {
                assert(mu as int + (d as int - 1) == (q0 + 1) * (d as int) + (r0 - 1) && a as int
                    == (-(q0 + 1)) * (d as int) + ((d as int) - r0)) by (nonlinear_arith)
                    requires
                        a as int == -(mu as int),
                        mu as int == (d as int) * q0 + r0,
                ;
                lemma_fundamental_div_mod_converse_div(
                    mu as int + (d as int - 1),
                    d as int,
                    q0 + 1,
                    r0 - 1,
                );
                lemma_fundamental_div_mod_converse_div(
                    a as int,
                    d as int,
                    -(q0 + 1),
                    (d as int) - r0,
                );
            }
        }
        -(qu as i64)
    }
}

/// Floor division of a wide intermediate product by `SCALE`.
pub fn div_scale(a: i128) -> (r: i64)
    requires
        -DIV_INPUT_LIMIT <= a <= DIV_INPUT_LIMIT,
    ensures
        r == fx_div(a as int),
{
    div_wide(a, SCALE)
}

/// Truncating division of a wide intermediate product by `SCALE`.
pub fn div_scale_trunc(a: i128) -> (r: i64)
    requires
        -DIV_INPUT_LIMIT <= a <= DIV_INPUT_LIMIT,
    ensures
        r == fx_div_trunc(a as int),
{
    if a >= 0 {
        div_wide(a, SCALE)
    } else {
        -div_wide(-a, SCALE)
    }
}

/// A bound on the input to a floor division bounds its result.
pub proof fn lemma_div_floor_bound(a: int, b: int, d: int)
    requires
        -b <= a <= b,
        0 <= b,
        0 < d,
    ensures
        -(b / d) - 1 <= a / d <= b / d,
{
    lemma_div_is_ordered(a, b, d);
    lemma_div_is_ordered(-b, a, d);
    let q = b / d;
    let r = b % d;
    lemma_fundamental_div_mod(b, d);
    if r == 0 {
        assert(-b == (-q) * d + 0) by (nonlinear_arith)
            requires
                b == d * q + r,
                r == 0,
        ;
        lemma_fundamental_div_mod_converse_div(-b, d, -q, 0);
    } else {
        assert(-b == (-q - 1) * d + (d - r)) by (nonlinear_arith)
            requires
                b == d * q + r,
        ;
        lemma_fundamental_div_mod_converse_div(-b, d, -q - 1, d - r);
    }
}

/// A bound on the input to `fx_div` bounds its result.
pub proof fn lemma_fx_div_bound(a: int, b: int)
    requires
        -b <= a <= b,
        0 <= b,
    ensures
        -(b / (SCALE as int)) - 1 <= fx_div(a) <= b / (SCALE as int),
{
    lemma_div_floor_bound(a, b, SCALE as int);
}

/// A bound on the input to `fx_div_trunc` bounds its result; truncation
/// never rounds away from zero, so no slack of one is needed.
pub proof fn lemma_fx_div_trunc_bound(a: int, b: int)
    requires
        -b <= a <= b,
        0 <= b,
    ensures
        -(b / (SCALE as int)) <= fx_div_trunc(a) <= b / (SCALE as int),
{
    if a >= 0 {
        lemma_div_is_ordered(a, b, SCALE as int);
        lemma_div_pos_is_pos(a, SCALE as int);
    } else {
        lemma_div_is_ordered(-a, b, SCALE as int);
        lemma_div_pos_is_pos(-a, SCALE as int);
    }
}

/// Truncating division commutes with negation.
pub proof fn lemma_fx_div_trunc_neg(a: int)
    ensures
        fx_div_trunc(-a) == -fx_div_trunc(a),
{
    if a == 0 {
        assert(fx_div_trunc(0) == 0int / (SCALE as int));
    }
}

/// Division of an exact multiple recovers the factor.
pub proof fn lemma_div_exact(k: int, d: int)
    requires
        0 < d,
    ensures
        (k * d) / d == k,
{
    lemma_fundamental_div_mod_converse_div(k * d, d, k, 0);
}

/// Lowering the input by at least one divisor step lowers the quotient.
pub proof fn lemma_div_step_down(a: int, b: int, d: int)
    requires
        a + d <= b,
        0 < d,
    ensures
        a / d < b / d,
{
    let q = b / d;
    let r = b % d;
    lemma_fundamental_div_mod(b, d);
    assert(b - d == (q - 1) * d + r) by (nonlinear_arith)
        requires
            b == d * q + r,
    ;
    lemma_fundamental_div_mod_converse_div(b - d, d, q - 1, r);
    lemma_div_is_ordered(a, b - d, d);
}

/// Floor division of a negated value: the exact negation when the divisor
/// divides the value, one below it otherwise.
pub proof fn lemma_div_neg(a: int, d: int)
    requires
        0 < d,
    ensures
        (-a) / d == (if a % d == 0 {
            -(a / d)
        } else {
            -(a / d) - 1
        }),
{
    let q = a / d;
    let r = a % d;
    lemma_fundamental_div_mod(a, d);
    if r == 0 {
        assert(-a == (-q) * d + 0) by (nonlinear_arith)
            requires
                a == d * q + r,
                r == 0,
        ;
        lemma_fundamental_div_mod_converse_div(-a, d, -q, 0);
    } else {
        assert(-a == (-q - 1) * d + (d - r)) by (nonlinear_arith)
            requires
                a == d * q + r,
        ;
        lemma_fundamental_div_mod_converse_div(-a, d, -q - 1, d - r);
    }
}

} // verus!
