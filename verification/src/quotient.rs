//! Integer division that rounds towards zero.

use vstd::prelude::*;

verus! {

/// Quotient of `n` by `d`, rounded towards zero: the magnitudes are divided
/// and the sign is restored. Meaningful for `d != 0`.
pub open spec fn quotient(n: int, d: int) -> int {
    if d > 0 {
        if n >= 0 {
            n / d
        } else {
            -((-n) / d)
        }
    } else {
        if n >= 0 {
            -(n / (-d))
        } else {
            (-n) / (-d)
        }
    }
}

/// Negating the dividend negates the quotient.
pub proof fn lemma_quotient_negated_dividend(n: int, d: int)
    requires
        d != 0,
    ensures
        quotient(-n, d) == -quotient(n, d),
{
}

/// Negating the divisor negates the quotient.
pub proof fn lemma_quotient_negated_divisor(n: int, d: int)
    requires
        d != 0,
    ensures
        quotient(n, -d) == -quotient(n, d),
{
}

/// A quotient is no larger in magnitude than its dividend.
pub proof fn lemma_quotient_magnitude(n: int, d: int)
    by (nonlinear_arith)
    requires
        d != 0,
    ensures
        n >= 0 ==> -n <= quotient(n, d) <= n,
        n <= 0 ==> n <= quotient(n, d) <= -n,
{
}

/// Whether rounding `n / d` towards zero commutes with adding the integer `k`
/// to it: the division leaves no remainder, or the exact quotient is on the
/// same side of zero before and after.
pub open spec fn steady(n: int, d: int, k: int) -> bool {
    ||| quotient(n, d) * d == n
    ||| (n * d > 0 && (n + k * d) * d > 0)
    ||| (n * d < 0 && (n + k * d) * d < 0)
}

/// For a positive divisor, the quotient times the divisor lies within one
/// divisor of the dividend, on the side of zero.
proof fn lemma_quotient_brackets(n: int, d: int)
    requires
        d > 0,
    ensures
        n >= 0 ==> quotient(n, d) * d <= n < quotient(n, d) * d + d,
        n < 0 ==> quotient(n, d) * d - d < n <= quotient(n, d) * d,
{
    if n >= 0 {
        vstd::arithmetic::div_mod::lemma_fundamental_div_mod(n, d);
        vstd::arithmetic::div_mod::lemma_mod_bound(n, d);
        assert(d * (n / d) == (n / d) * d) by (nonlinear_arith);
    } else {
        let m = (-n) / d;
        vstd::arithmetic::div_mod::lemma_fundamental_div_mod(-n, d);
        vstd::arithmetic::div_mod::lemma_mod_bound(-n, d);
        assert(d * m == m * d) by (nonlinear_arith);
        assert((-m) * d == -(m * d)) by (nonlinear_arith);
    }
}

/// For a positive divisor, the only integer that brackets the dividend as in
/// [`lemma_quotient_brackets`] is the quotient.
proof fn lemma_quotient_unique(n: int, d: int, q: int)
    requires
        d > 0,
        n >= 0 ==> q * d <= n < q * d + d,
        n < 0 ==> q * d - d < n <= q * d,
    ensures
        quotient(n, d) == q,
{
    if n >= 0 {
        vstd::arithmetic::div_mod::lemma_fundamental_div_mod_converse(n, d, q, n - q * d);
    } else {
        assert((-q) * d == -(q * d)) by (nonlinear_arith);
        vstd::arithmetic::div_mod::lemma_fundamental_div_mod_converse(
            -n,
            d,
            -q,
            -n - (-q) * d,
        );
    }
}

/// [`lemma_quotient_shift`] for a positive divisor.
proof fn lemma_quotient_shift_positive(n: int, d: int, k: int)
    requires
        d > 0,
        steady(n, d, k),
    ensures
        quotient(n + k * d, d) == quotient(n, d) + k,
{
    let q = quotient(n, d);
    lemma_quotient_brackets(n, d);
    assert((q + k) * d == q * d + k * d) by (nonlinear_arith);
    if q * d != n {
        assert(n > 0 <==> n * d > 0) by (nonlinear_arith)
            requires
                d > 0,
        ;
        assert(n + k * d > 0 <==> (n + k * d) * d > 0) by (nonlinear_arith)
            requires
                d > 0,
        ;
    }
    lemma_quotient_unique(n + k * d, d, q + k);
}

/// Adding `k` times the divisor to the dividend adds `k` to the quotient,
/// where the rounding is [`steady`].
pub proof fn lemma_quotient_shift(n: int, d: int, k: int)
    requires
        d != 0,
        steady(n, d, k),
    ensures
        quotient(n + k * d, d) == quotient(n, d) + k,
{
    if d > 0 {
        lemma_quotient_shift_positive(n, d, k);
    } else {
        let e = -d;
        let q = quotient(n, d);
        lemma_quotient_negated_dividend(n, e);
        lemma_quotient_negated_divisor(n, e);
        assert(quotient(-n, e) == q);
        assert(q * e == -(q * d)) by (nonlinear_arith)
            requires
                e == -d,
        ;
        assert((-n) * e == n * d) by (nonlinear_arith)
            requires
                e == -d,
        ;
        assert(k * e == -(k * d)) by (nonlinear_arith)
            requires
                e == -d,
        ;
        assert((-n + k * e) * e == (n + k * d) * d) by (nonlinear_arith)
            requires
                e == -d,
        ;
        lemma_quotient_shift_positive(-n, e, k);
        lemma_quotient_negated_dividend(n + k * d, e);
        lemma_quotient_negated_divisor(n + k * d, e);
    }
}

/// Divides rounding towards zero, as integer division in Rust does, with the
/// divisor made positive first.
pub(crate) fn divide(n: i64, d: i64) -> (q: i64)
    requires
        d != 0,
        i64::MIN < n,
        i64::MIN < d,
    ensures
        q == quotient(n as int, d as int),
        n >= 0 ==> -n <= q <= n,
        n <= 0 ==> n <= q <= -n,
{
    proof {
        lemma_quotient_magnitude(n as int, d as int);
    }
    if d > 0 {
        n / d
    } else {
        (-n) / (-d)
    }
}

} // verus!
