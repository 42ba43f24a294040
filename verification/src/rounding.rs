//! Rounding an exact quotient to the nearest whole number.

use vstd::prelude::*;
use vstd::arithmetic::div_mod::{
    lemma_div_multiples_vanish_quotient,
    lemma_fundamental_div_mod,
    lemma_fundamental_div_mod_converse_div,
    lemma_mod_bound,
};
use vstd::arithmetic::power::pow;

verus! {

/// The whole number nearest to `n / d`, for `d > 0`. A quotient that lies
/// exactly halfway between two whole numbers goes to the one further from
/// zero.
pub open spec fn round_div(n: int, d: int) -> int {
    if n >= 0 {
        (2 * n + d) / (2 * d)
    } else {
        -((2 * (-n) + d) / (2 * d))
    }
}

/// `a` times the `n`-th power of `p / q`, rounded to the nearest whole number.
pub open spec fn compound(a: int, p: int, q: int, n: nat) -> int {
    round_div(a * pow(p, n), pow(q, n))
}

/// `round_div(n, d)` is within half a unit of `n / d`, on the side away from
/// zero when it is exactly half a unit off, and has the sign of `n`.
pub proof fn lemma_round_div_nearest(n: int, d: int)
    requires
        d > 0,
    ensures
        -d <= 2 * (n - round_div(n, d) * d) <= d,
        n >= 0 ==> round_div(n, d) >= 0 && 2 * (n - round_div(n, d) * d) < d,
        n <= 0 ==> round_div(n, d) <= 0 && 2 * (n - round_div(n, d) * d) > -d,
{
    let m = if n >= 0 {
        n
    } else {
        -n
    };
    let x = 2 * m + d;
    let q = x / (2 * d);
    lemma_fundamental_div_mod(x, 2 * d);
    lemma_mod_bound(x, 2 * d);
    assert(x == (2 * d) * q + x % (2 * d));
    assert(2 * (m - q * d) == x % (2 * d) - d) by (nonlinear_arith)
        requires
            2 * m + d == (2 * d) * q + x % (2 * d),
    ;
    assert(q >= 0) by (nonlinear_arith)
        requires
            (2 * d) * q + x % (2 * d) >= d,
            x % (2 * d) < 2 * d,
            d > 0,
    ;
    if n == 0 {
        assert(q == 0) by (nonlinear_arith)
            requires
                d == (2 * d) * q + x % (2 * d),
                x % (2 * d) >= 0,
                q >= 0,
                d > 0,
        ;
        assert(q * d == 0) by (nonlinear_arith)
            requires
                q == 0,
        ;
    }
    if n >= 0 {
        assert(round_div(n, d) == q);
    } else {
        assert(round_div(n, d) == -q);
        assert((-q) * d == -(q * d)) by (nonlinear_arith);
    }
}

/// The only whole number less than half a unit from `n / d` is
/// `round_div(n, d)`.
pub proof fn lemma_round_div_unique(n: int, d: int, q: int)
    requires
        d > 0,
        -d < 2 * (n - q * d) < d,
    ensures
        round_div(n, d) == q,
{
    if n >= 0 {
        let r = 2 * (n - q * d) + d;
        assert(2 * n + d == q * (2 * d) + r) by (nonlinear_arith)
            requires
                r == 2 * (n - q * d) + d,
        ;
        lemma_fundamental_div_mod_converse_div(2 * n + d, 2 * d, q, r);
    } else {
        let r = 2 * ((-n) - (-q) * d) + d;
        assert((-q) * d == -(q * d)) by (nonlinear_arith);
        assert(2 * (-n) + d == (-q) * (2 * d) + r) by (nonlinear_arith)
            requires
                r == 2 * ((-n) - (-q) * d) + d,
        ;
        lemma_fundamental_div_mod_converse_div(2 * (-n) + d, 2 * d, -q, r);
    }
}

/// A whole multiple of the divisor is divided without rounding.
pub proof fn lemma_round_div_exact(q: int, d: int)
    requires
        d > 0,
    ensures
        round_div(q * d, d) == q,
{
    lemma_round_div_unique(q * d, d, q);
}

/// One more factor: `pow(b, n + 1)` is `pow(b, n) * b`.
pub proof fn lemma_pow_next(b: int, n: nat)
    ensures
        pow(b, n + 1) == pow(b, n) * b,
        pow(b, n + 1) == b * pow(b, n),
{
    reveal(pow);
    assert(pow(b, n + 1) == b * pow(b, n));
    assert(b * pow(b, n) == pow(b, n) * b) by (nonlinear_arith);
}

/// A larger base has the larger power.
pub proof fn lemma_pow_base_monotone(q: int, p: int, n: nat)
    requires
        0 < q <= p,
    ensures
        0 < pow(q, n) <= pow(p, n),
    decreases n,
{
    reveal(pow);
    if n > 0 {
        lemma_pow_base_monotone(q, p, (n - 1) as nat);
        let low = pow(q, (n - 1) as nat);
        let high = pow(p, (n - 1) as nat);
        assert(0 < q * low <= p * high) by (nonlinear_arith)
            requires
                0 < q <= p,
                0 < low <= high,
        ;
    }
}

/// Compounding by a factor of at least one loses nothing: compounding by
/// the inverse factor afterwards gives the amount back to the cent.
pub proof fn lemma_compound_inverse(a: int, p: int, q: int, n: nat)
    requires
        0 < q <= p,
    ensures
        compound(compound(a, p, q, n), q, p, n) == a,
{
    let low = pow(q, n);
    let high = pow(p, n);
    lemma_pow_base_monotone(q, p, n);
    let grown = round_div(a * high, low);
    lemma_round_div_nearest(a * high, low);
    if low == high {
        lemma_round_div_exact(a, high);
        assert(grown == a);
        assert(grown * low == a * high);
    }
    lemma_round_div_unique(grown * low, high, a);
}

/// A factor common to both sides of a quotient does not change how it is
/// rounded.
pub proof fn lemma_round_div_common_factor(n: int, d: int, c: int)
    requires
        d > 0,
        c > 0,
    ensures
        round_div(n * c, d * c) == round_div(n, d),
{
    let m = if n >= 0 {
        n
    } else {
        -n
    };
    assert(n >= 0 ==> n * c >= 0) by (nonlinear_arith)
        requires
            c > 0,
    ;
    assert(n < 0 ==> n * c < 0 && -(n * c) == (-n) * c) by (nonlinear_arith)
        requires
            c > 0,
    ;
    assert(2 * (m * c) + d * c == c * (2 * m + d) && 2 * (d * c) == c * (2 * d))
        by (nonlinear_arith);
    assert(2 * m + d >= 0);
    lemma_div_multiples_vanish_quotient(c, 2 * m + d, 2 * d);
}

} // verus!
