//! Fixed-point 2D vectors.
//!
//! Components are fixed-point scalars (see `fixed`). Lengths come from an
//! exact integer square root, so `norm` of a scaled vector is the scaled
//! physical length, and a unit vector carries `SCALE` as its nominal length.

use crate::fixed::{div_i64, div_tz, fits_i64, fx_mul_spec, isqrt, ISQRT_ARG_LIM, SCALE};
use vstd::prelude::*;

verus! {

/// Bound on vector components accepted by the length and unit operations:
/// the squared norm of a vector within this bound fits in an `i64`.
pub const VEC_LIM: i64 = 2_000_000_000;

#[derive(Clone, Copy, Debug, PartialEq, Eq, Structural)]
pub struct Vec2 {
    pub x: i64,
    pub y: i64,
}

/// Both components within `lim` in magnitude.
pub open spec fn in_lim(v: Vec2, lim: int) -> bool {
    -lim <= v.x <= lim && -lim <= v.y <= lim
}

/// Squared length, in squared fixed-point units.
pub open spec fn norm_sq_spec(v: Vec2) -> int {
    v.x * v.x + v.y * v.y
}

/// `r` is the integer square root of `n`.
pub open spec fn is_isqrt(n: int, r: int) -> bool {
    0 <= r && r * r <= n < (r + 1) * (r + 1)
}

/// The integer square root as a spec-level function.
pub open spec fn isqrt_spec(n: int) -> int {
    choose|r: int| is_isqrt(n, r)
}

/// The integer square root is unique.
pub proof fn lemma_isqrt_unique(n: int, a: int, b: int)
    by (nonlinear_arith)
    requires
        is_isqrt(n, a),
        is_isqrt(n, b),
    ensures
        a == b,
{
}

/// A root produced by a witness pins down `isqrt_spec`.
pub proof fn lemma_isqrt_witness(n: int, r: int)
    requires
        is_isqrt(n, r),
    ensures
        isqrt_spec(n) == r,
{
    let c = choose|c: int| is_isqrt(n, c);
    lemma_isqrt_unique(n, c, r);
}

/// Every non-negative integer has an integer square root, so `isqrt_spec`
/// always denotes one.
pub proof fn lemma_isqrt_exists(n: int)
    requires
        0 <= n,
    ensures
        is_isqrt(n, isqrt_spec(n)),
    decreases n,
{
    if n == 0 {
        assert(is_isqrt(0, 0)) by (nonlinear_arith);
        lemma_isqrt_witness(0, 0);
    } else {
        lemma_isqrt_exists(n - 1);
        let r = isqrt_spec(n - 1);
        if (r + 1) * (r + 1) == n {
            assert(is_isqrt(n, r + 1)) by (nonlinear_arith)
                requires
                    is_isqrt(n - 1, r),
                    (r + 1) * (r + 1) == n,
            ;
            lemma_isqrt_witness(n, r + 1);
        } else {
            assert(is_isqrt(n, r)) by (nonlinear_arith)
                requires
                    is_isqrt(n - 1, r),
                    (r + 1) * (r + 1) != n,
            ;
            lemma_isqrt_witness(n, r);
        }
    }
}

/// Length of a vector, in fixed-point units (rounded down).
pub open spec fn norm_spec(v: Vec2) -> int {
    isqrt_spec(norm_sq_spec(v))
}

/// The unit vector along `v`, scaled by `SCALE`, each component rounded
/// toward zero.
pub open spec fn unit_spec(v: Vec2) -> Vec2 {
    let d = norm_spec(v);
    Vec2 { x: div_tz(v.x * SCALE, d) as i64, y: div_tz(v.y * SCALE, d) as i64 }
}

impl Vec2 {
    pub fn new(x: i64, y: i64) -> (r: Vec2)
        ensures
            r == (Vec2 { x, y }),
    {
        Vec2 { x, y }
    }

    pub fn zero() -> (r: Vec2)
        ensures
            r == (Vec2 { x: 0, y: 0 }),
    {
        Vec2 { x: 0, y: 0 }
    }

    pub fn add(self, o: Vec2) -> (r: Vec2)
        requires
            i64::MIN <= self.x + o.x <= i64::MAX,
            i64::MIN <= self.y + o.y <= i64::MAX,
        ensures
            r.x == self.x + o.x,
            r.y == self.y + o.y,
    {
        Vec2 { x: self.x + o.x, y: self.y + o.y }
    }

    pub fn sub(self, o: Vec2) -> (r: Vec2)
        requires
            i64::MIN <= self.x - o.x <= i64::MAX,
            i64::MIN <= self.y - o.y <= i64::MAX,
        ensures
            r.x == self.x - o.x,
            r.y == self.y - o.y,
    {
        Vec2 { x: self.x - o.x, y: self.y - o.y }
    }

    pub fn neg(self) -> (r: Vec2)
        requires
            self.x != i64::MIN,
            self.y != i64::MIN,
        ensures
            r.x == -self.x,
            r.y == -self.y,
    {
        Vec2 { x: -self.x, y: -self.y }
    }

    /// Scale by a fixed-point scalar: each component becomes
    /// `component * s / SCALE`.
    pub fn smul(self, s: i64) -> (r: Vec2)
        requires
            fits_i64(self.x * s),
            fits_i64(self.y * s),
        ensures
            r.x == fx_mul_spec(self.x as int, s as int),
            r.y == fx_mul_spec(self.y as int, s as int),
    {
        let wx: i64 = self.x.checked_mul(s).unwrap();
        let wy: i64 = self.y.checked_mul(s).unwrap();
        proof {
            crate::fixed::lemma_div_tz_bounds(wx as int, SCALE as int);
            crate::fixed::lemma_div_tz_bounds(wy as int, SCALE as int);
        }
        Vec2 { x: wx.checked_div(SCALE).unwrap(), y: wy.checked_div(SCALE).unwrap() }
    }

    /// Divide by a positive plain integer, truncating toward zero.
    pub fn sdiv(self, b: i64) -> (r: Vec2)
        requires
            b > 0,
        ensures
            r.x == div_tz(self.x as int, b as int),
            r.y == div_tz(self.y as int, b as int),
    {
        Vec2 { x: div_i64(self.x, b), y: div_i64(self.y, b) }
    }

    /// Whether both components lie within `lim` in magnitude.
    pub fn within(self, lim: i64) -> (r: bool)
        requires
            lim >= 0,
        ensures
            r == in_lim(self, lim as int),
    {
        -lim <= self.x && self.x <= lim && -lim <= self.y && self.y <= lim
    }

    /// Fixed-point dot product: `(x1*x2 + y1*y2) / SCALE`, truncated, so the
    /// dot product of two scaled vectors is again a scaled scalar.
    pub fn dot(self, o: Vec2) -> (r: i64)
        requires
            in_lim(self, VEC_LIM as int),
            in_lim(o, VEC_LIM as int),
        ensures
            r == div_tz(self.x * o.x + self.y * o.y, SCALE as int),
    {
        proof {
            assert(-VEC_LIM * VEC_LIM <= self.x * o.x <= VEC_LIM * VEC_LIM && -VEC_LIM * VEC_LIM
                <= self.y * o.y <= VEC_LIM * VEC_LIM) by (nonlinear_arith)
                requires
                    in_lim(self, VEC_LIM as int),
                    in_lim(o, VEC_LIM as int),
            ;
        }
        let wide: i64 = self.x.checked_mul(o.x).unwrap().checked_add(
            self.y.checked_mul(o.y).unwrap(),
        ).unwrap();
        proof {
            crate::fixed::lemma_div_tz_bounds(wide as int, SCALE as int);
        }
        wide.checked_div(SCALE).unwrap()
    }

    /// Squared length in squared fixed-point units; exact.
    pub fn norm_sq(self) -> (r: i64)
        requires
            in_lim(self, VEC_LIM as int),
        ensures
            r == norm_sq_spec(self),
            0 <= r <= ISQRT_ARG_LIM,
    {
        proof {
            assert(0 <= self.x * self.x <= VEC_LIM * VEC_LIM && 0 <= self.y * self.y <= VEC_LIM
                * VEC_LIM) by (nonlinear_arith)
                requires
                    in_lim(self, VEC_LIM as int),
            ;
        }
        self.x.checked_mul(self.x).unwrap().checked_add(
            self.y.checked_mul(self.y).unwrap(),
        ).unwrap()
    }

    /// Length in fixed-point units, rounded down.
    pub fn norm(self) -> (r: i64)
        requires
            in_lim(self, VEC_LIM as int),
        ensures
            r == norm_spec(self),
            is_isqrt(norm_sq_spec(self), r as int),
            0 <= r <= crate::fixed::ISQRT_ROOT_LIM,
            r >= self.x && r >= -self.x && r >= self.y && r >= -self.y,
    {
        let sq: i64 = self.norm_sq();
        let root: u64 = isqrt(sq as u64);
        proof {
            lemma_isqrt_witness(sq as int, root as int);
            assert(root >= self.x && root >= -self.x && root >= self.y && root
                >= -self.y) by (nonlinear_arith)
                requires
                    root >= 0,
                    (root + 1) * (root + 1) > self.x * self.x + self.y * self.y,
            ;
        }
        root as i64
    }

    /// Unit vector along `self`, scaled by `SCALE`; components round toward
    /// zero, so each lies within `SCALE` in magnitude.
    pub fn unit(self) -> (r: Vec2)
        requires
            in_lim(self, VEC_LIM as int),
            !(self.x == 0 && self.y == 0),
        ensures
            r == unit_spec(self),
            in_lim(r, SCALE as int),
            norm_spec(self) >= 1,
    {
        let d: i64 = self.norm();
        proof {
            assert(norm_sq_spec(self) >= 1) by (nonlinear_arith)
                requires
                    !(self.x == 0 && self.y == 0),
            ;
            assert(d >= 1) by (nonlinear_arith)
                requires
                    is_isqrt(norm_sq_spec(self), d as int),
                    norm_sq_spec(self) >= 1,
            ;
            // d + 1 exceeds |x| and |y|, since (d+1)^2 > x^2 + y^2.
            assert(-d <= self.x <= d && -d <= self.y <= d) by (nonlinear_arith)
                requires
                    is_isqrt(norm_sq_spec(self), d as int),
                    norm_sq_spec(self) == self.x * self.x + self.y * self.y,
            ;
        }
        let nx: i64 = div_i64(self.x.checked_mul(SCALE).unwrap(), d);
        let ny: i64 = div_i64(self.y.checked_mul(SCALE).unwrap(), d);
        proof {
            assert(-SCALE * d <= self.x * SCALE <= SCALE * d && -SCALE * d <= self.y * SCALE
                <= SCALE * d) by (nonlinear_arith)
                requires
                    -d <= self.x <= d,
                    -d <= self.y <= d,
                    d >= 1,
            ;
            lemma_div_mag_le(self.x * SCALE, d as int, SCALE as int);
            lemma_div_mag_le(self.y * SCALE, d as int, SCALE as int);
        }
        Vec2 { x: nx, y: ny }
    }
}

/// If `|a| <= k * b` then `|div_tz(a, b)| <= k`.
pub proof fn lemma_div_mag_le(a: int, b: int, k: int)
    by (nonlinear_arith)
    requires
        b > 0,
        k >= 0,
        -(k * b) <= a <= k * b,
    ensures
        -k <= div_tz(a, b) <= k,
{
    if a >= 0 {
        vstd::arithmetic::div_mod::lemma_div_is_ordered(a, k * b, b);
        vstd::arithmetic::div_mod::lemma_div_pos_is_pos(a, b);
        vstd::arithmetic::div_mod::lemma_div_multiples_vanish(k, b);
    } else {
        vstd::arithmetic::div_mod::lemma_div_is_ordered(-a, k * b, b);
        vstd::arithmetic::div_mod::lemma_div_pos_is_pos(-a, b);
        vstd::arithmetic::div_mod::lemma_div_multiples_vanish(k, b);
    }
}

} // verus!
