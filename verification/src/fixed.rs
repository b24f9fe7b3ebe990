//! Fixed-point probability arithmetic.
//!
//! A probability is an integer in `[0, UNIT]`, standing for the real number
//! `p / UNIT`.  Products round down; the probabilistic sum `a + b - a*b` is
//! built from the rounded product, and its complement identity
//! `1 - (1-a)(1-b)` holds exactly at this granularity.

use vstd::prelude::*;

verus! {

/// The fixed-point representation of probability one.
pub const UNIT: u64 = 1_000_000;

/// Floor-rounded fixed-point product: the probability of the conjunction of
/// two independent events.
pub open spec fn pmul(a: int, b: int) -> int {
    (a * b) / (UNIT as int)
}

/// Probabilistic sum: the probability of the disjunction of two independent
/// events, with the product term rounded as in `pmul`.
pub open spec fn por(a: int, b: int) -> int {
    a + b - pmul(a, b)
}

pub proof fn lemma_pmul_bounds(a: int, b: int)
    requires
        0 <= a <= UNIT,
        0 <= b <= UNIT,
    ensures
        0 <= pmul(a, b),
        pmul(a, b) <= a,
        pmul(a, b) <= b,
{
    assert(0 <= a * b <= a * (UNIT as int) && a * b <= (UNIT as int) * b) by (nonlinear_arith)
        requires
            0 <= a <= UNIT,
            0 <= b <= UNIT,
    ;
    assert((a * b) / (UNIT as int) >= 0) by (nonlinear_arith)
        requires
            0 <= a * b,
    ;
    assert((a * (UNIT as int)) / (UNIT as int) == a) by (nonlinear_arith);
    assert(((UNIT as int) * b) / (UNIT as int) == b) by (nonlinear_arith);
    assert((a * b) / (UNIT as int) <= (a * (UNIT as int)) / (UNIT as int)) by (nonlinear_arith)
        requires
            a * b <= a * (UNIT as int),
    ;
    assert((a * b) / (UNIT as int) <= ((UNIT as int) * b) / (UNIT as int)) by (nonlinear_arith)
        requires
            a * b <= (UNIT as int) * b,
    ;
}

pub proof fn lemma_por_bounds(a: int, b: int)
    requires
        0 <= a <= UNIT,
        0 <= b <= UNIT,
    ensures
        0 <= por(a, b) <= UNIT,
        por(a, b) >= a,
        por(a, b) >= b,
{
    lemma_pmul_bounds(a, b);
    lemma_por_complement(a, b);
    lemma_pmul_bounds(UNIT - a, UNIT - b);
}

/// `1 - (1-a)(1-b) == a + b - ab`, exactly, at fixed-point granularity: the
/// two roundings coincide because `(UNIT-a)(UNIT-b)` and `ab` differ by a
/// multiple of `UNIT`.
pub proof fn lemma_por_complement(a: int, b: int)
    requires
        0 <= a <= UNIT,
        0 <= b <= UNIT,
    ensures
        por(a, b) == UNIT - pmul(UNIT - a, UNIT - b),
{
    let u = UNIT as int;
    let q = (a * b) / u;
    let m = (a * b) % u;
    vstd::arithmetic::div_mod::lemma_fundamental_div_mod(a * b, u);
    vstd::arithmetic::div_mod::lemma_mod_bound(a * b, u);
    assert((u - a) * (u - b) == u * ((u - a - b) + q) + m) by (nonlinear_arith)
        requires
            a * b == u * q + m,
    ;
    vstd::arithmetic::div_mod::lemma_div_multiples_vanish_fancy((u - a - b) + q, m, u);
}

pub proof fn lemma_pmul_scale(a: int, b: int)
    requires
        0 <= a <= UNIT,
        0 <= b,
    ensures
        0 <= pmul(a, b) <= b,
        a == UNIT ==> pmul(a, b) == b,
{
    assert(0 <= a * b <= (UNIT as int) * b) by (nonlinear_arith)
        requires
            0 <= a <= UNIT,
            0 <= b,
    ;
    assert((a * b) / (UNIT as int) >= 0) by (nonlinear_arith)
        requires
            0 <= a * b,
    ;
    assert(((UNIT as int) * b) / (UNIT as int) == b) by (nonlinear_arith);
    assert((a * b) / (UNIT as int) <= ((UNIT as int) * b) / (UNIT as int)) by (nonlinear_arith)
        requires
            a * b <= (UNIT as int) * b,
    ;
}

/// Fixed-point scaling of an arbitrary non-negative quantity by a
/// probability.
pub fn prob_scale(a: u64, b: u64) -> (r: u64)
    requires
        a <= UNIT,
    ensures
        r == pmul(a as int, b as int),
        r <= b,
{
    proof {
        lemma_pmul_scale(a as int, b as int);
        assert((a as u128) * (b as u128) == (a as int) * (b as int)) by (nonlinear_arith);
    }
    let wide: u128 = (a as u128) * (b as u128) / (UNIT as u128);
    wide as u64
}

/// Fixed-point product of two probabilities.
pub fn prob_mul(a: u64, b: u64) -> (r: u64)
    requires
        a <= UNIT,
        b <= UNIT,
    ensures
        r == pmul(a as int, b as int),
        r <= a,
        r <= b,
{
    proof {
        lemma_pmul_bounds(a as int, b as int);
        assert((a as u128) * (b as u128) == (a as int) * (b as int)) by (nonlinear_arith);
    }
    let wide: u128 = (a as u128) * (b as u128) / (UNIT as u128);
    wide as u64
}

/// Probabilistic sum of two probabilities.
pub fn prob_or(a: u64, b: u64) -> (r: u64)
    requires
        a <= UNIT,
        b <= UNIT,
    ensures
        r == por(a as int, b as int),
        r <= UNIT,
        r >= a,
        r >= b,
{
    proof {
        lemma_por_bounds(a as int, b as int);
    }
    let p = prob_mul(a, b);
    a + b - p
}

} // verus!
