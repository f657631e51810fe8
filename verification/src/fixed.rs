//! Fixed-point scalars.
//!
//! Every real quantity of the simulation (coordinates, affinities, the shape
//! constants, speed, elapsed time) is an integer count of millionths. The
//! arithmetic is exact integer arithmetic; a quotient is rounded toward zero,
//! so that negating an operand negates the result.

use vstd::prelude::*;

verus! {

/// The fixed-point representation of `1.0`.
pub const ONE: i64 = 1_000_000;

/// Quotient of `a` by a positive `b`, rounded toward zero.
pub open spec fn div_toward_zero(a: int, b: int) -> int {
    if a >= 0 {
        a / b
    } else {
        -((-a) / b)
    }
}

/// Fixed-point product of two fixed-point values.
pub open spec fn fixed_mul(a: int, b: int) -> int {
    div_toward_zero(a * b, ONE as int)
}

/// Fixed-point quotient of two fixed-point values, for a positive divisor.
pub open spec fn fixed_div(a: int, b: int) -> int {
    div_toward_zero(a * ONE, b)
}

/// `r` is the integer square root of `n`: the largest integer whose square
/// does not exceed `n`.
pub open spec fn is_sqrt_floor(n: int, r: int) -> bool {
    0 <= r && r * r <= n && n < (r + 1) * (r + 1)
}

/// The integer square root of `n` (meaningful for `n >= 0`).
pub open spec fn sqrt_floor(n: int) -> int {
    choose|r: int| is_sqrt_floor(n, r)
}

/// Rounding toward zero commutes with negation.
pub proof fn lemma_div_toward_zero_neg(a: int, b: int)
    requires
        b > 0,
    ensures
        div_toward_zero(-a, b) == -div_toward_zero(a, b),
{
}

/// A quotient rounded toward zero is no larger in magnitude than the exact
/// quotient: `|a / b| * b <= |a| < (|a / b| + 1) * b`, with the sign of `a`.
pub proof fn lemma_div_toward_zero_bounds(a: int, b: int)
    requires
        b > 0,
    ensures
        a >= 0 ==> 0 <= div_toward_zero(a, b) * b <= a < (div_toward_zero(a, b) + 1) * b,
        a <= 0 ==> (div_toward_zero(a, b) - 1) * b < a <= div_toward_zero(a, b) * b <= 0,
{
    let m: int = if a >= 0 { a } else { -a };
    let q: int = m / b;
    vstd::arithmetic::div_mod::lemma_fundamental_div_mod(m, b);
    vstd::arithmetic::div_mod::lemma_mod_bound(m, b);
    assert(m == b * q + m % b);
    assert(b * q == q * b) by (nonlinear_arith);
    assert((q + 1) * b == q * b + b) by (nonlinear_arith);
    assert((-q - 1) * b == -(q * b) - b) by (nonlinear_arith);
    assert((-q) * b == -(q * b)) by (nonlinear_arith);
    if a >= 0 {
        assert(div_toward_zero(a, b) == q);
    } else {
        assert(div_toward_zero(a, b) == -q);
    }
}

/// If `|a| <= k * b` for some `k >= 0`, the quotient rounded toward zero is
/// at most `k` in magnitude.
pub proof fn lemma_div_toward_zero_magnitude(a: int, b: int, k: int)
    requires
        b > 0,
        k >= 0,
        -(k * b) <= a <= k * b,
    ensures
        -k <= div_toward_zero(a, b) <= k,
{
    lemma_div_toward_zero_bounds(a, b);
    let q: int = div_toward_zero(a, b);
    if a >= 0 {
        assert(q <= k) by (nonlinear_arith)
            requires
                q * b <= a,
                a <= k * b,
                b > 0,
        ;
        assert(q >= 0) by (nonlinear_arith)
            requires
                (q + 1) * b > a,
                a >= 0,
                b > 0,
        ;
    } else {
        assert(q >= -k) by (nonlinear_arith)
            requires
                a <= q * b,
                -(k * b) <= a,
                b > 0,
        ;
        assert(q <= 0) by (nonlinear_arith)
            requires
                (q - 1) * b < a,
                a <= 0,
                b > 0,
        ;
    }
}

/// An exact multiple divides exactly: `(q * b) / b == q`.
pub proof fn lemma_div_toward_zero_exact(q: int, b: int)
    requires
        b > 0,
    ensures
        div_toward_zero(q * b, b) == q,
{
    let a: int = q * b;
    lemma_div_toward_zero_bounds(a, b);
    let d: int = div_toward_zero(a, b);
    if q >= 0 {
        assert(a >= 0) by (nonlinear_arith)
            requires
                a == q * b,
                q >= 0,
                b > 0,
        ;
        assert(d == q) by (nonlinear_arith)
            requires
                d * b <= q * b,
                q * b < (d + 1) * b,
                b > 0,
        ;
    } else {
        assert(a < 0) by (nonlinear_arith)
            requires
                a == q * b,
                q < 0,
                b > 0,
        ;
        assert(d == q) by (nonlinear_arith)
            requires
                (d - 1) * b < q * b,
                q * b <= d * b,
                b > 0,
        ;
    }
}

/// At most one integer is the integer square root of `n`.
pub proof fn lemma_sqrt_floor_unique(n: int, r1: int, r2: int)
    requires
        is_sqrt_floor(n, r1),
        is_sqrt_floor(n, r2),
    ensures
        r1 == r2,
{
    if r1 < r2 {
        assert((r1 + 1) * (r1 + 1) <= r2 * r2) by (nonlinear_arith)
            requires
                0 <= r1,
                r1 + 1 <= r2,
        ;
    } else if r2 < r1 {
        assert((r2 + 1) * (r2 + 1) <= r1 * r1) by (nonlinear_arith)
            requires
                0 <= r2,
                r2 + 1 <= r1,
        ;
    }
}

/// Every natural number has an integer square root, and `sqrt_floor` is it.
pub proof fn lemma_sqrt_floor_exists(n: int)
    requires
        n >= 0,
    ensures
        is_sqrt_floor(n, sqrt_floor(n)),
    decreases n,
{
    if n == 0 {
        assert(is_sqrt_floor(0, 0));
    } else {
        lemma_sqrt_floor_exists(n - 1);
        let r: int = sqrt_floor(n - 1);
        if (r + 1) * (r + 1) <= n {
            assert((r + 2) * (r + 2) > (r + 1) * (r + 1)) by (nonlinear_arith)
                requires
                    r >= 0,
            ;
            assert(is_sqrt_floor(n, r + 1));
        } else {
            assert(is_sqrt_floor(n, r));
        }
    }
}

/// Whatever satisfies the defining inequalities is the integer square root.
pub proof fn lemma_sqrt_floor_is(n: int, r: int)
    requires
        is_sqrt_floor(n, r),
    ensures
        sqrt_floor(n) == r,
{
    lemma_sqrt_floor_unique(n, r, sqrt_floor(n));
}

/// The integer square root is below `bound` exactly when `n` is below
/// `bound` squared.
pub proof fn lemma_sqrt_floor_below(n: int, bound: int)
    requires
        n >= 0,
        bound >= 0,
    ensures
        sqrt_floor(n) < bound <==> n < bound * bound,
{
    lemma_sqrt_floor_exists(n);
    let r: int = sqrt_floor(n);
    if r < bound {
        assert((r + 1) * (r + 1) <= bound * bound) by (nonlinear_arith)
            requires
                0 <= r,
                r + 1 <= bound,
        ;
    } else {
        assert(bound * bound <= r * r) by (nonlinear_arith)
            requires
                0 <= bound,
                bound <= r,
        ;
    }
}

/// Integer square root of a 128-bit unsigned number, by bisection.
pub fn isqrt(n: u128) -> (r: u64)
    ensures
        is_sqrt_floor(n as int, r as int),
        r == sqrt_floor(n as int),
{
    let mut lo: u128 = 0;
    let mut hi: u128 = if n < 0x1_0000_0000 {
        0x1_0000
    } else if n < 0x1_0000_0000_0000_0000 {
        0x1_0000_0000
    } else if n < 0x1_0000_0000_0000_0000_0000_0000 {
        0x1_0000_0000_0000
    } else {
        0x1_0000_0000_0000_0000
    };
    assert(0x1_0000int * 0x1_0000int == 0x1_0000_0000 && 0x1_0000_0000int * 0x1_0000_0000int
        == 0x1_0000_0000_0000_0000 && 0x1_0000_0000_0000int * 0x1_0000_0000_0000int
        == 0x1_0000_0000_0000_0000_0000_0000 && 0x1_0000_0000_0000_0000int
        * 0x1_0000_0000_0000_0000int > u128::MAX) by (nonlinear_arith);
    while hi - lo > 1
        invariant
            lo < hi <= 0x1_0000_0000_0000_0000,
            lo * lo <= n,
            n < hi * hi,
        decreases hi - lo,
    {
        let mid: u128 = lo + (hi - lo) / 2;
        assert(mid * mid <= u128::MAX) by (nonlinear_arith)
            requires
                0 <= mid <= 0xFFFF_FFFF_FFFF_FFFF,
        ;
        if mid * mid <= n {
            lo = mid;
        } else {
            hi = mid;
        }
    }
    proof {
        lemma_sqrt_floor_is(n as int, lo as int);
    }
    lo as u64
}

} // verus!
