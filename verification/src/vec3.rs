//! Fixed-point 3D vectors, the three-component counterpart of `vec2`.

use crate::fixed::{div_i64, div_tz, fits_i64, fx_mul_spec, isqrt, ISQRT_ARG_LIM, SCALE};
use crate::vec2::{is_isqrt, isqrt_spec, lemma_div_mag_le, lemma_isqrt_witness};
use vstd::prelude::*;

verus! {

/// Bound on vector components accepted by the length and unit operations:
/// the squared norm of a vector within this bound fits in an `i64`.
pub const VEC3_LIM: i64 = 1_700_000_000;

#[derive(Clone, Copy, Debug, PartialEq, Eq, Structural)]
pub struct Vec3 {
    pub x: i64,
    pub y: i64,
    pub z: i64,
}

/// All components within `lim` in magnitude.
pub open spec fn in_lim3(v: Vec3, lim: int) -> bool {
    -lim <= v.x <= lim && -lim <= v.y <= lim && -lim <= v.z <= lim
}

/// Squared length, in squared fixed-point units.
pub open spec fn norm3_sq_spec(v: Vec3) -> int {
    v.x * v.x + v.y * v.y + v.z * v.z
}

/// Length of a vector, in fixed-point units (rounded down).
pub open spec fn norm3_spec(v: Vec3) -> int {
    isqrt_spec(norm3_sq_spec(v))
}

/// The unit vector along `v`, scaled by `SCALE`, each component rounded
/// toward zero.
pub open spec fn unit3_spec(v: Vec3) -> Vec3 {
    let d = norm3_spec(v);
    Vec3 {
        x: div_tz(v.x * SCALE, d) as i64,
        y: div_tz(v.y * SCALE, d) as i64,
        z: div_tz(v.z * SCALE, d) as i64,
    }
}

impl Vec3 {
    pub fn new(x: i64, y: i64, z: i64) -> (r: Vec3)
        ensures
            r == (Vec3 { x, y, z }),
    {
        Vec3 { x, y, z }
    }

    pub fn zero() -> (r: Vec3)
        ensures
            r == (Vec3 { x: 0, y: 0, z: 0 }),
    {
        Vec3 { x: 0, y: 0, z: 0 }
    }

    pub fn add(self, o: Vec3) -> (r: Vec3)
        requires
            i64::MIN <= self.x + o.x <= i64::MAX,
            i64::MIN <= self.y + o.y <= i64::MAX,
            i64::MIN <= self.z + o.z <= i64::MAX,
        ensures
            r.x == self.x + o.x,
            r.y == self.y + o.y,
            r.z == self.z + o.z,
    {
        Vec3 { x: self.x + o.x, y: self.y + o.y, z: self.z + o.z }
    }

    pub fn sub(self, o: Vec3) -> (r: Vec3)
        requires
            i64::MIN <= self.x - o.x <= i64::MAX,
            i64::MIN <= self.y - o.y <= i64::MAX,
            i64::MIN <= self.z - o.z <= i64::MAX,
        ensures
            r.x == self.x - o.x,
            r.y == self.y - o.y,
            r.z == self.z - o.z,
    {
        Vec3 { x: self.x - o.x, y: self.y - o.y, z: self.z - o.z }
    }

    pub fn neg(self) -> (r: Vec3)
        requires
            self.x != i64::MIN,
            self.y != i64::MIN,
            self.z != i64::MIN,
        ensures
            r.x == -self.x,
            r.y == -self.y,
            r.z == -self.z,
    {
        Vec3 { x: -self.x, y: -self.y, z: -self.z }
    }

    /// Scale by a fixed-point scalar: each component becomes
    /// `component * s / SCALE`.
    pub fn smul(self, s: i64) -> (r: Vec3)
        requires
            fits_i64(self.x * s),
            fits_i64(self.y * s),
            fits_i64(self.z * s),
        ensures
            r.x == fx_mul_spec(self.x as int, s as int),
            r.y == fx_mul_spec(self.y as int, s as int),
            r.z == fx_mul_spec(self.z as int, s as int),
    {
        let wx: i64 = self.x.checked_mul(s).unwrap();
        let wy: i64 = self.y.checked_mul(s).unwrap();
        let wz: i64 = self.z.checked_mul(s).unwrap();
        proof {
            crate::fixed::lemma_div_tz_bounds(wx as int, SCALE as int);
            crate::fixed::lemma_div_tz_bounds(wy as int, SCALE as int);
            crate::fixed::lemma_div_tz_bounds(wz as int, SCALE as int);
        }
        Vec3 {
            x: wx.checked_div(SCALE).unwrap(),
            y: wy.checked_div(SCALE).unwrap(),
            z: wz.checked_div(SCALE).unwrap(),
        }
    }

    /// Divide by a positive plain integer, truncating toward zero.
    pub fn sdiv(self, b: i64) -> (r: Vec3)
        requires
            b > 0,
        ensures
            r.x == div_tz(self.x as int, b as int),
            r.y == div_tz(self.y as int, b as int),
            r.z == div_tz(self.z as int, b as int),
    {
        Vec3 { x: div_i64(self.x, b), y: div_i64(self.y, b), z: div_i64(self.z, b) }
    }

    /// Whether every component lies within `lim` in magnitude.
    pub fn within(self, lim: i64) -> (r: bool)
        requires
            lim >= 0,
        ensures
            r == in_lim3(self, lim as int),
    {
        -lim <= self.x && self.x <= lim && -lim <= self.y && self.y <= lim && -lim <= self.z
            && self.z <= lim
    }

    /// Fixed-point dot product: the component-product sum over `SCALE`,
    /// truncated.
    pub fn dot(self, o: Vec3) -> (r: i64)
        requires
            in_lim3(self, VEC3_LIM as int),
            in_lim3(o, VEC3_LIM as int),
        ensures
            r == div_tz(self.x * o.x + self.y * o.y + self.z * o.z, SCALE as int),
    {
        proof {
            assert(-VEC3_LIM * VEC3_LIM <= self.x * o.x <= VEC3_LIM * VEC3_LIM && -VEC3_LIM
                * VEC3_LIM <= self.y * o.y <= VEC3_LIM * VEC3_LIM && -VEC3_LIM * VEC3_LIM <= self.z
                * o.z <= VEC3_LIM * VEC3_LIM) by (nonlinear_arith)
                requires
                    in_lim3(self, VEC3_LIM as int),
                    in_lim3(o, VEC3_LIM as int),
            ;
        }
        let wide: i64 = self.x.checked_mul(o.x).unwrap().checked_add(
            self.y.checked_mul(o.y).unwrap(),
        ).unwrap().checked_add(self.z.checked_mul(o.z).unwrap()).unwrap();
        proof {
            crate::fixed::lemma_div_tz_bounds(wide as int, SCALE as int);
        }
        wide.checked_div(SCALE).unwrap()
    }

    /// Squared length in squared fixed-point units; exact.
    pub fn norm_sq(self) -> (r: i64)
        requires
            in_lim3(self, VEC3_LIM as int),
        ensures
            r == norm3_sq_spec(self),
            0 <= r <= ISQRT_ARG_LIM,
    {
        proof {
            assert(0 <= self.x * self.x <= VEC3_LIM * VEC3_LIM && 0 <= self.y * self.y <= VEC3_LIM
                * VEC3_LIM && 0 <= self.z * self.z <= VEC3_LIM * VEC3_LIM) by (nonlinear_arith)
                requires
                    in_lim3(self, VEC3_LIM as int),
            ;
        }
        self.x.checked_mul(self.x).unwrap().checked_add(
            self.y.checked_mul(self.y).unwrap(),
        ).unwrap().checked_add(self.z.checked_mul(self.z).unwrap()).unwrap()
    }

    /// Length in fixed-point units, rounded down.
    pub fn norm(self) -> (r: i64)
        requires
            in_lim3(self, VEC3_LIM as int),
        ensures
            r == norm3_spec(self),
            is_isqrt(norm3_sq_spec(self), r as int),
            0 <= r <= crate::fixed::ISQRT_ROOT_LIM,
    {
        let sq: i64 = self.norm_sq();
        let root: u64 = isqrt(sq as u64);
        proof {
            lemma_isqrt_witness(sq as int, root as int);
        }
        root as i64
    }

    /// Unit vector along `self`, scaled by `SCALE`; components round toward
    /// zero, so each lies within `SCALE` in magnitude.
    pub fn unit(self) -> (r: Vec3)
        requires
            in_lim3(self, VEC3_LIM as int),
            !(self.x == 0 && self.y == 0 && self.z == 0),
        ensures
            r == unit3_spec(self),
            in_lim3(r, SCALE as int),
            norm3_spec(self) >= 1,
    {
        let d: i64 = self.norm();
        proof {
            assert(norm3_sq_spec(self) >= 1) by (nonlinear_arith)
                requires
                    !(self.x == 0 && self.y == 0 && self.z == 0),
            ;
            assert(d >= 1) by (nonlinear_arith)
                requires
                    is_isqrt(norm3_sq_spec(self), d as int),
                    norm3_sq_spec(self) >= 1,
            ;
            // d + 1 exceeds each component's magnitude, since the squared
            // norm dominates each square.
            assert(-d <= self.x <= d && -d <= self.y <= d && -d <= self.z
                <= d) by (nonlinear_arith)
                requires
                    is_isqrt(norm3_sq_spec(self), d as int),
                    norm3_sq_spec(self) == self.x * self.x + self.y * self.y + self.z * self.z,
            ;
        }
        let nx: i64 = div_i64(self.x.checked_mul(SCALE).unwrap(), d);
        let ny: i64 = div_i64(self.y.checked_mul(SCALE).unwrap(), d);
        let nz: i64 = div_i64(self.z.checked_mul(SCALE).unwrap(), d);
        proof {
            assert(-SCALE * d <= self.x * SCALE <= SCALE * d && -SCALE * d <= self.y * SCALE
                <= SCALE * d && -SCALE * d <= self.z * SCALE <= SCALE * d) by (nonlinear_arith)
                requires
                    -d <= self.x <= d,
                    -d <= self.y <= d,
                    -d <= self.z <= d,
                    d >= 1,
            ;
            lemma_div_mag_le(self.x * SCALE, d as int, SCALE as int);
            lemma_div_mag_le(self.y * SCALE, d as int, SCALE as int);
            lemma_div_mag_le(self.z * SCALE, d as int, SCALE as int);
        }
        Vec3 { x: nx, y: ny, z: nz }
    }
}

} // verus!
