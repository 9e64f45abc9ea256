//! Fixed-point scalar arithmetic.
//!
//! A scalar is an `i64` holding the physical value multiplied by `SCALE`:
//! `1500` stands for `1.5`. Multiplication and division rescale with
//! truncation toward zero, the way hardware integer division rounds, so every
//! operation has an exact integer specification.

use vstd::arithmetic::div_mod::lemma_div_is_ordered_by_denominator;
use vstd::prelude::*;

verus! {

/// Number of fixed-point units per physical unit.
pub const SCALE: i64 = 1000;

/// Magnitude bound on the operands of a fixed-point product: the product of
/// two scalars within this bound fits in an `i64`.
pub const FX_LIM: i64 = 3_000_000_000;

/// Truncated (toward zero) integer division, the rounding of hardware signed
/// division; the divisor is expected to be positive.
pub open spec fn div_tz(a: int, b: int) -> int
    recommends
        b > 0,
{
    if a >= 0 {
        a / b
    } else {
        -((-a) / b)
    }
}

/// What a fixed-point product evaluates to: the wide product, scaled back
/// down with truncation toward zero.
pub open spec fn fx_mul_spec(a: int, b: int) -> int {
    div_tz(a * b, SCALE as int)
}

/// What a fixed-point quotient evaluates to: the dividend, scaled up, divided
/// with truncation toward zero.
pub open spec fn fx_div_spec(a: int, b: int) -> int
    recommends
        b > 0,
{
    div_tz(a * SCALE, b)
}

/// Truncated division of the magnitude never exceeds the magnitude itself
/// (for a positive divisor).
pub proof fn lemma_div_tz_bounds(a: int, b: int)
    requires
        b > 0,
    ensures
        a >= 0 ==> 0 <= div_tz(a, b) <= a,
        a < 0 ==> a <= div_tz(a, b) <= 0,
        b == 1 ==> div_tz(a, b) == a,
{
    if a >= 0 {
        lemma_div_is_ordered_by_denominator(a, 1, b);
    } else {
        lemma_div_is_ordered_by_denominator(-a, 1, b);
    }
}

/// Multiplying a truncated quotient back never overshoots the dividend.
pub proof fn lemma_div_tz_mul_le(a: int, b: int)
    requires
        b > 0,
    ensures
        a >= 0 ==> div_tz(a, b) * b <= a,
        a < 0 ==> div_tz(a, b) * b >= a,
{
    if a >= 0 {
        vstd::arithmetic::div_mod::lemma_fundamental_div_mod(a, b);
        vstd::arithmetic::div_mod::lemma_mod_division_less_than_divisor(a, b);
        assert(b * (a / b) == (a / b) * b) by (nonlinear_arith);
    } else {
        vstd::arithmetic::div_mod::lemma_fundamental_div_mod(-a, b);
        vstd::arithmetic::div_mod::lemma_mod_division_less_than_divisor(-a, b);
        assert(b * ((-a) / b) == ((-a) / b) * b && (-((-a) / b)) * b == -(((-a) / b)
            * b)) by (nonlinear_arith);
    }
}

/// Truncated division leaves a residue smaller than the divisor, on the
/// dividend's side of zero.
pub proof fn lemma_div_tz_residue(a: int, b: int)
    requires
        b > 0,
    ensures
        a >= 0 ==> 0 <= a - div_tz(a, b) * b < b,
        a < 0 ==> -b < a - div_tz(a, b) * b <= 0,
{
    if a >= 0 {
        vstd::arithmetic::div_mod::lemma_fundamental_div_mod(a, b);
        vstd::arithmetic::div_mod::lemma_mod_division_less_than_divisor(a, b);
        assert(b * (a / b) == (a / b) * b) by (nonlinear_arith);
    } else {
        vstd::arithmetic::div_mod::lemma_fundamental_div_mod(-a, b);
        vstd::arithmetic::div_mod::lemma_mod_division_less_than_divisor(-a, b);
        assert(b * ((-a) / b) == ((-a) / b) * b && (-((-a) / b)) * b == -(((-a) / b)
            * b)) by (nonlinear_arith);
    }
}

/// Scaling by the fixed-point unit is exact: `fx_mul_spec(SCALE, x) == x`.
pub proof fn lemma_fx_mul_by_scale(x: int)
    ensures
        fx_mul_spec(SCALE as int, x) == x,
{
    vstd::arithmetic::div_mod::lemma_div_multiples_vanish(x, SCALE as int);
    vstd::arithmetic::div_mod::lemma_div_multiples_vanish(-x, SCALE as int);
    assert((SCALE as int) * x == x * SCALE && (SCALE as int) * (-x) == -(x * SCALE) && (x >= 0 ==> (
    SCALE as int) * x >= 0) && (x < 0 ==> (SCALE as int) * x < 0)) by (nonlinear_arith);
}

/// Truncation toward zero is odd: negating the dividend negates the
/// quotient.
pub proof fn lemma_div_tz_odd(a: int, b: int)
    requires
        b > 0,
    ensures
        div_tz(-a, b) == -div_tz(a, b),
{
    vstd::arithmetic::div_mod::lemma_div_of0(b);
}

/// Two truncated divisions in a row divide by the product: truncation
/// toward zero nests.
pub proof fn lemma_div_tz_denominator(x: int, c: int, d: int)
    requires
        c > 0,
        d > 0,
    ensures
        div_tz(div_tz(x, c), d) == div_tz(x, c * d),
{
    assert(c * d > 0) by (nonlinear_arith)
        requires
            c > 0,
            d > 0,
    ;
    if x >= 0 {
        lemma_div_tz_bounds(x, c);
        vstd::arithmetic::div_mod::lemma_div_denominator(x, c, d);
    } else {
        lemma_div_tz_bounds(-x, c);
        vstd::arithmetic::div_mod::lemma_div_denominator(-x, c, d);
    }
}

/// A common positive factor of dividend and divisor cancels under
/// truncated division.
pub proof fn lemma_div_tz_cancel(k: int, x: int, b: int)
    requires
        k > 0,
        b > 0,
    ensures
        div_tz(k * x, k * b) == div_tz(x, b),
{
    assert(k * b > 0) by (nonlinear_arith)
        requires
            k > 0,
            b > 0,
    ;
    if x >= 0 {
        assert(k * x >= 0) by (nonlinear_arith)
            requires
                k > 0,
                x >= 0,
        ;
        vstd::arithmetic::div_mod::lemma_div_denominator(k * x, k, b);
        vstd::arithmetic::div_mod::lemma_div_multiples_vanish(x, k);
    } else {
        assert(k * x < 0 && -(k * x) == k * (-x) && k * (-x) >= 0) by (nonlinear_arith)
            requires
                k > 0,
                x < 0,
        ;
        vstd::arithmetic::div_mod::lemma_div_denominator(k * (-x), k, b);
        vstd::arithmetic::div_mod::lemma_div_multiples_vanish(-x, k);
    }
}

/// Truncated signed division by a positive divisor.
pub fn div_i64(a: i64, b: i64) -> (r: i64)
    requires
        b > 0,
    ensures
        r == div_tz(a as int, b as int),
{
    proof {
        lemma_div_tz_bounds(a as int, b as int);
    }
    a.checked_div(b).unwrap()
}

/// Fixed-point product: `a * b / SCALE`, truncated toward zero.
pub fn fx_mul(a: i64, b: i64) -> (r: i64)
    requires
        -FX_LIM <= a <= FX_LIM,
        -FX_LIM <= b <= FX_LIM,
    ensures
        r == fx_mul_spec(a as int, b as int),
        -FX_LIM * FX_LIM <= a * b <= FX_LIM * FX_LIM,
{
    proof {
        assert(-FX_LIM * FX_LIM <= a * b <= FX_LIM * FX_LIM) by (nonlinear_arith)
            requires
                -FX_LIM <= a <= FX_LIM,
                -FX_LIM <= b <= FX_LIM,
        ;
    }
    let wide: i64 = a.checked_mul(b).unwrap();
    proof {
        lemma_div_tz_bounds(wide as int, SCALE as int);
    }
    wide.checked_div(SCALE).unwrap()
}

/// Fixed-point quotient by a positive divisor: `a * SCALE / b`, truncated
/// toward zero.
pub fn fx_div(a: i64, b: i64) -> (r: i64)
    requires
        0 < b,
        fits_i64(a * SCALE),
    ensures
        r == fx_div_spec(a as int, b as int),
{
    let wide: i64 = a.checked_mul(SCALE).unwrap();
    proof {
        lemma_div_tz_bounds(wide as int, b as int);
    }
    wide.checked_div(b).unwrap()
}

/// The value fits in an `i64`.
pub open spec fn fits_i64(x: int) -> bool {
    i64::MIN <= x <= i64::MAX
}

/// Truncated signed division by a positive divisor, carried out wide for
/// intermediate values that outgrow an `i64`.
pub fn div_i128(a: i128, b: i128) -> (r: i128)
    requires
        b > 0,
    ensures
        r == div_tz(a as int, b as int),
{
    proof {
        lemma_div_tz_bounds(a as int, b as int);
    }
    a.checked_div(b).unwrap()
}

/// Fixed-point product for operands already known to multiply within range;
/// unlike `fx_mul` it carries no magnitude bound of its own.
pub fn fx_mul_wide(a: i64, b: i64) -> (r: i64)
    requires
        fits_i64(a * b),
    ensures
        r == fx_mul_spec(a as int, b as int),
{
    let wide: i64 = a.checked_mul(b).unwrap();
    proof {
        lemma_div_tz_bounds(wide as int, SCALE as int);
    }
    wide.checked_div(SCALE).unwrap()
}

/// Fixed-point product that reports instead of overflowing: `None` exactly
/// when the wide product `a * b` leaves the `i64` range.
pub fn fx_mul_checked(a: i64, b: i64) -> (r: Option<i64>)
    ensures
        fits_i64(a * b) ==> fits_i64(fx_mul_spec(a as int, b as int)) && r == Some(
            (fx_mul_spec(a as int, b as int)) as i64,
        ),
        !fits_i64(a * b) ==> r is None,
{
    match a.checked_mul(b) {
        Some(wide) => {
            proof {
                lemma_div_tz_bounds(wide as int, SCALE as int);
            }
            Some(wide.checked_div(SCALE).unwrap())
        },
        None => None,
    }
}

/// Largest argument `isqrt` accepts; the square of `ISQRT_ROOT_LIM + 1`
/// still fits in a `u64`, which keeps the search arithmetic exact.
pub const ISQRT_ARG_LIM: u64 = 9_000_000_000_000_000_000;

/// Every root returned by `isqrt` is at most this.
pub const ISQRT_ROOT_LIM: u64 = 3_000_000_000;

/// Integer square root: the unique `r` with `r * r <= n < (r + 1) * (r + 1)`.
pub fn isqrt(n: u64) -> (r: u64)
    requires
        n <= ISQRT_ARG_LIM,
    ensures
        r * r <= n < (r + 1) * (r + 1),
        r <= ISQRT_ROOT_LIM,
{
    let mut lo: u64 = 0;
    let mut hi: u64 = ISQRT_ROOT_LIM + 1;
    proof {
        assert((ISQRT_ROOT_LIM + 1) * (ISQRT_ROOT_LIM + 1) > ISQRT_ARG_LIM);
    }
    while hi - lo > 1
        invariant
            lo < hi <= ISQRT_ROOT_LIM + 1,
            lo * lo <= n,
            n < hi * hi,
        decreases hi - lo,
    {
        let mid: u64 = lo + (hi - lo) / 2;
        proof {
            assert(mid * mid <= ISQRT_ROOT_LIM * ISQRT_ROOT_LIM) by (nonlinear_arith)
                requires
                    0 <= mid <= ISQRT_ROOT_LIM,
            ;
            assert(ISQRT_ROOT_LIM * ISQRT_ROOT_LIM <= u64::MAX);
        }
        let sq: u64 = mid * mid;
        if sq <= n {
            lo = mid;
        } else {
            hi = mid;
        }
    }
    lo
}

/// What `decay` evaluates to: the cube of `1 / (1 + x/3)` carried out in
/// fixed point — a cubic rational approximation of exponential decay,
/// rescaled after each multiplication.
pub open spec fn decay_spec(x: int) -> int
    recommends
        x >= 0,
{
    let u = div_tz(SCALE * SCALE, SCALE + div_tz(x, 3));
    fx_mul_spec(fx_mul_spec(u, u), u)
}

/// Exponential damping factor: a fixed-point stand-in for `e^(-x)`, used for
/// tangential friction and spring damping. It is exactly `SCALE` (no damping)
/// at `x == 0`, positive, never exceeds `SCALE`, and never turns a decaying
/// quantity into a growing one.
pub fn decay(x: i64) -> (r: i64)
    requires
        0 <= x <= FX_LIM,
    ensures
        r == decay_spec(x as int),
        0 <= r <= SCALE,
        x == 0 ==> r == SCALE,
{
    let third: i64 = div_i64(x, 3);
    proof {
        lemma_div_tz_bounds(x as int, 3);
        assert(SCALE * SCALE == 1_000_000);
    }
    let denom: i64 = SCALE + third;
    let u: i64 = div_i64(SCALE * SCALE, denom);
    proof {
        vstd::arithmetic::div_mod::lemma_div_is_ordered_by_denominator(
            (SCALE * SCALE) as int,
            SCALE as int,
            denom as int,
        );
        assert(u <= SCALE);
        lemma_div_tz_bounds((SCALE * SCALE) as int, denom as int);
        assert(u >= 0);
    }
    let uu: i64 = fx_mul(u, u);
    proof {
        assert(0 <= fx_mul_spec(u as int, u as int) <= SCALE) by (nonlinear_arith)
            requires
                0 <= u <= SCALE,
                SCALE == 1000,
        ;
    }
    let r: i64 = fx_mul(uu, u);
    proof {
        assert(0 <= fx_mul_spec(uu as int, u as int) <= SCALE) by (nonlinear_arith)
            requires
                0 <= uu <= SCALE,
                0 <= u <= SCALE,
                SCALE == 1000,
        ;
        if x == 0 {
            assert(decay_spec(0) == SCALE);
        }
    }
    r
}

} // verus!
