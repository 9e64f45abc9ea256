//! Point particles in three dimensions: pairwise gravity, electrostatics and
//! collision impulses, with momentum as the state variable.
//!
//! Degenerate geometry (coincident particles) and values that would leave the
//! fixed-point range make a pair's interaction a zero force instead of a
//! nonsense value: the interaction is skipped for that step, never turned
//! into a wrong magnitude.

use crate::error::SimError;
use crate::fixed::{
    div_i64, div_tz, fits_i64, fx_div_spec, fx_mul, fx_mul_checked, fx_mul_spec, FX_LIM, SCALE,
};
use crate::vec3::{in_lim3, norm3_spec, norm3_sq_spec, unit3_spec, Vec3};
use vstd::prelude::*;

verus! {

/// Bound on particle coordinates, momentum components, masses, radii and
/// charges: keeps every pairwise formula inside the fixed-point range.
pub const P_LIM: i64 = 800_000_000;

/// A velocity component beyond this makes a collision impulse meaningless in
/// fixed point; such a collision is skipped.
pub const VEL_GUARD: i64 = 500_000_000;

/// Largest magnitude a single collision impulse component can have.
pub const IMPULSE_LIM: i64 = 6_000_000_000_000;

#[derive(Clone, Copy, Debug, PartialEq, Eq, Structural)]
pub struct Particle {
    pub pos: Vec3,
    pub momentum: Vec3,
    pub mass: i64,
    pub radius: i64,
    pub charge: i64,
}

/// Well-formed particle: positive mass, non-negative radius, every component
/// inside the coordinate range.
pub open spec fn particle_wf(p: Particle) -> bool {
    &&& 1 <= p.mass <= P_LIM
    &&& 0 <= p.radius <= P_LIM
    &&& in_lim3(p.pos, P_LIM as int)
    &&& in_lim3(p.momentum, P_LIM as int)
    &&& -P_LIM <= p.charge <= P_LIM
}

/// The separation vector from `p1` to `p2`.
pub open spec fn sep_spec(p1: Particle, p2: Particle) -> Vec3 {
    Vec3 {
        x: (p2.pos.x - p1.pos.x) as i64,
        y: (p2.pos.y - p1.pos.y) as i64,
        z: (p2.pos.z - p1.pos.z) as i64,
    }
}

/// The inverse-distance damping term `force * SCALE / (SCALE + k * d)`,
/// or zero when damping is disabled (`k == 0`).
pub open spec fn damp_term_spec(force: int, k: int, d: int) -> int {
    if k > 0 {
        div_tz(force * SCALE, SCALE + fx_mul_spec(k, d))
    } else {
        0
    }
}

/// The force magnitude left after the damping term is subtracted.
pub open spec fn dampened_spec(force: int, k: int, d: int) -> int {
    force - damp_term_spec(force, k, d)
}

/// What `grav_force` returns: `G * m1 * m2 / dist^2` along the unit vector
/// from `p1` to `p2`, softened by the damping term, with zero returned for
/// coincident particles and for magnitudes outside the fixed-point range.
pub open spec fn grav_force_spec(p1: Particle, p2: Particle, g: int, k: int) -> Vec3 {
    let r = sep_spec(p1, p2);
    if r.x == 0 && r.y == 0 && r.z == 0 {
        Vec3 { x: 0, y: 0, z: 0 }
    } else {
        let d = norm3_spec(r);
        let dd = fx_mul_spec(d, d);
        let num1 = fx_mul_spec(g, p1.mass as int);
        if dd == 0 || !fits_i64(num1 * p2.mass) {
            Vec3 { x: 0, y: 0, z: 0 }
        } else {
            let force = fx_div_spec(fx_mul_spec(num1, p2.mass as int), dd);
            if force > FX_LIM {
                Vec3 { x: 0, y: 0, z: 0 }
            } else {
                let net = dampened_spec(force, k, d);
                let u = unit3_spec(r);
                Vec3 {
                    x: fx_mul_spec(u.x as int, net) as i64,
                    y: fx_mul_spec(u.y as int, net) as i64,
                    z: fx_mul_spec(u.z as int, net) as i64,
                }
            }
        }
    }
}

/// The damping term keeps the net magnitude between zero and the raw one.
proof fn lemma_dampened_bounds(force: int, k: int, d: int)
    requires
        0 <= force <= FX_LIM,
        0 <= k <= FX_LIM,
        0 <= d,
        0 <= fx_mul_spec(k, d),
    ensures
        0 <= damp_term_spec(force, k, d) <= force,
        0 <= dampened_spec(force, k, d) <= force,
{
    if k > 0 {
        let denom = SCALE + fx_mul_spec(k, d);
        vstd::arithmetic::div_mod::lemma_div_is_ordered_by_denominator(
            force * SCALE,
            SCALE as int,
            denom,
        );
        vstd::arithmetic::div_mod::lemma_div_multiples_vanish(force, SCALE as int);
        crate::fixed::lemma_div_tz_bounds(force * SCALE, denom);
    }
}

/// Gravitational attraction of `p1` toward `p2`: inverse-square law with the
/// optional inverse-distance damping softener (`dampen == 0` disables it).
pub fn grav_force(p1: &Particle, p2: &Particle, g: i64, dampen: i64) -> (r: Vec3)
    requires
        particle_wf(*p1),
        particle_wf(*p2),
        0 <= g <= FX_LIM,
        0 <= dampen <= FX_LIM,
    ensures
        r == grav_force_spec(*p1, *p2, g as int, dampen as int),
        in_lim3(r, FX_LIM as int),
{
    let rvec = p2.pos.sub(p1.pos);
    if rvec.x == 0 && rvec.y == 0 && rvec.z == 0 {
        return Vec3::zero();
    }
    let d: i64 = rvec.norm();
    let dd: i64 = fx_mul(d, d);
    let num1: i64 = fx_mul(g, p1.mass);
    proof {
        assert(0 <= g * p1.mass) by (nonlinear_arith)
            requires
                g >= 0,
                p1.mass >= 0,
        ;
        crate::fixed::lemma_div_tz_bounds(g * p1.mass, SCALE as int);
        assert(0 <= dd) by {
            assert(0 <= d * d) by (nonlinear_arith)
                requires
                    d >= 0,
            ;
            crate::fixed::lemma_div_tz_bounds(d * d, SCALE as int);
        }
    }
    let num = match fx_mul_checked(num1, p2.mass) {
        Some(v) => v,
        None => {
            return Vec3::zero();
        },
    };
    if dd == 0 {
        return Vec3::zero();
    }
    proof {
        assert(0 <= num1 * p2.mass) by (nonlinear_arith)
            requires
                num1 >= 0,
                p2.mass >= 0,
        ;
        crate::fixed::lemma_div_tz_bounds(num1 * p2.mass, SCALE as int);
        assert(fits_i64(num * SCALE)) by (nonlinear_arith)
            requires
                0 <= num,
                num * SCALE <= num1 * p2.mass,
                fits_i64(num1 * p2.mass),
        ;
    }
    let force: i64 = crate::fixed::fx_div(num, dd);
    proof {
        assert(0 <= num * SCALE) by (nonlinear_arith)
            requires
                0 <= num,
        ;
        crate::fixed::lemma_div_tz_bounds(num * SCALE, dd as int);
    }
    if force > FX_LIM {
        return Vec3::zero();
    }
    let net: i64 = if dampen > 0 {
        let kd: i64 = fx_mul(dampen, d);
        proof {
            assert(0 <= dampen * d) by (nonlinear_arith)
                requires
                    dampen >= 0,
                    d >= 0,
            ;
            crate::fixed::lemma_div_tz_bounds(dampen * d, SCALE as int);
        }
        let dmp: i64 = crate::fixed::fx_div(force, SCALE + kd);
        proof {
            lemma_dampened_bounds(force as int, dampen as int, d as int);
        }
        force - dmp
    } else {
        force
    };
    proof {
        lemma_dampened_bounds(force as int, dampen as int, d as int);
        assert(net == dampened_spec(force as int, dampen as int, d as int));
    }
    let u = rvec.unit();
    proof {
        assert(fits_i64(u.x * net) && fits_i64(u.y * net) && fits_i64(u.z * net)
            && -FX_LIM * SCALE <= u.x * net <= FX_LIM * SCALE && -FX_LIM * SCALE <= u.y * net
            <= FX_LIM * SCALE && -FX_LIM * SCALE <= u.z * net <= FX_LIM
            * SCALE) by (nonlinear_arith)
            requires
                in_lim3(u, SCALE as int),
                0 <= net <= FX_LIM,
        ;
    }
    let r = u.smul(net);
    proof {
        crate::vec2::lemma_div_mag_le(u.x * net, SCALE as int, FX_LIM as int);
        crate::vec2::lemma_div_mag_le(u.y * net, SCALE as int, FX_LIM as int);
        crate::vec2::lemma_div_mag_le(u.z * net, SCALE as int, FX_LIM as int);
    }
    r
}

/// Pairwise antisymmetry of gravity for equal masses: swapping the two
/// particles negates the force exactly, componentwise. Every rounding step
/// truncates toward zero, which is odd, and with equal masses the
/// magnitude pipeline is the same from either side. (With unequal masses
/// the magnitude is rescaled as `(g * m1) * m2` from the first particle's
/// side, and the two truncation orders can differ by a unit; the stepping
/// engine never relies on antisymmetry — it computes one impulse per pair
/// and applies it with both signs.)
pub proof fn lemma_grav_antisymmetric(p1: Particle, p2: Particle, g: int, k: int)
    requires
        particle_wf(p1),
        particle_wf(p2),
        p1.mass == p2.mass,
        0 <= g <= FX_LIM,
        0 <= k <= FX_LIM,
    ensures
        grav_force_spec(p2, p1, g, k).x == -grav_force_spec(p1, p2, g, k).x,
        grav_force_spec(p2, p1, g, k).y == -grav_force_spec(p1, p2, g, k).y,
        grav_force_spec(p2, p1, g, k).z == -grav_force_spec(p1, p2, g, k).z,
{
    let s = SCALE as int;
    let r12 = sep_spec(p1, p2);
    let r21 = sep_spec(p2, p1);
    assert(r21.x == -(r12.x as int) && r21.y == -(r12.y as int) && r21.z == -(r12.z as int));
    if r12.x == 0 && r12.y == 0 && r12.z == 0 {
    } else {
        let nsq = norm3_sq_spec(r12);
        assert(norm3_sq_spec(r21) == nsq && nsq >= 1) by (nonlinear_arith)
            requires
                r21.x == -(r12.x as int),
                r21.y == -(r12.y as int),
                r21.z == -(r12.z as int),
                nsq == r12.x * r12.x + r12.y * r12.y + r12.z * r12.z,
                norm3_sq_spec(r21) == r21.x * r21.x + r21.y * r21.y + r21.z * r21.z,
                !(r12.x == 0 && r12.y == 0 && r12.z == 0),
        ;
        crate::vec2::lemma_isqrt_exists(nsq);
        let d = norm3_spec(r12);
        assert(norm3_spec(r21) == d);
        assert(d >= 1 && d >= r12.x && d >= -r12.x && d >= r12.y && d >= -r12.y && d >= r12.z && d
            >= -r12.z) by (nonlinear_arith)
            requires
                crate::vec2::is_isqrt(nsq, d),
                nsq == r12.x * r12.x + r12.y * r12.y + r12.z * r12.z,
                nsq >= 1,
        ;
        // The unit vector flips exactly: truncation toward zero is odd.
        let ux = div_tz(r12.x * s, d);
        let uy = div_tz(r12.y * s, d);
        let uz = div_tz(r12.z * s, d);
        assert(-(s * d) <= r12.x * s <= s * d && -(s * d) <= r12.y * s <= s * d && -(s * d) <= r12.z
            * s <= s * d && ((-(r12.x as int)) * s == -(r12.x * s)) && ((-(r12.y as int)) * s == -(
        r12.y * s)) && ((-(r12.z as int)) * s == -(r12.z * s))) by (nonlinear_arith)
            requires
                d >= r12.x && d >= -r12.x && d >= r12.y && d >= -r12.y && d >= r12.z && d >= -r12.z,
                d >= 1,
                s == 1000,
        ;
        crate::vec2::lemma_div_mag_le(r12.x * s, d, s);
        crate::vec2::lemma_div_mag_le(r12.y * s, d, s);
        crate::vec2::lemma_div_mag_le(r12.z * s, d, s);
        crate::fixed::lemma_div_tz_odd(r12.x * s, d);
        crate::fixed::lemma_div_tz_odd(r12.y * s, d);
        crate::fixed::lemma_div_tz_odd(r12.z * s, d);
        let u = unit3_spec(r12);
        let u2 = unit3_spec(r21);
        assert(u.x == ux && u.y == uy && u.z == uz);
        assert(u2.x == -ux && u2.y == -uy && u2.z == -uz);
        // The magnitude pipeline is identical from either side.
        let num1 = fx_mul_spec(g, p1.mass as int);
        let dd = fx_mul_spec(d, d);
        assert(0 <= g * p1.mass && 0 <= d * d) by (nonlinear_arith)
            requires
                g >= 0,
                p1.mass >= 1,
        ;
        crate::fixed::lemma_div_tz_bounds(g * p1.mass, s);
        crate::fixed::lemma_div_tz_bounds(d * d, s);
        if dd == 0 || !fits_i64(num1 * p2.mass) {
        } else {
            let num = fx_mul_spec(num1, p2.mass as int);
            assert(0 <= num1 * p2.mass) by (nonlinear_arith)
                requires
                    num1 >= 0,
                    p2.mass >= 1,
            ;
            crate::fixed::lemma_div_tz_bounds(num1 * p2.mass, s);
            let force = fx_div_spec(num, dd);
            assert(0 <= num * s) by (nonlinear_arith)
                requires
                    num >= 0,
                    s == 1000,
            ;
            crate::fixed::lemma_div_tz_bounds(num * s, dd);
            if force > FX_LIM {
            } else {
                assert(0 <= k * d) by (nonlinear_arith)
                    requires
                        k >= 0,
                        d >= 0,
                ;
                crate::fixed::lemma_div_tz_bounds(k * d, s);
                lemma_dampened_bounds(force, k, d);
                let net = dampened_spec(force, k, d);
                // Each force component flips exactly with the unit vector.
                assert(-(FX_LIM * s) <= ux * net <= FX_LIM * s && -(FX_LIM * s) <= uy * net
                    <= FX_LIM * s && -(FX_LIM * s) <= uz * net <= FX_LIM * s && ((-ux) * net == -(
                ux * net)) && ((-uy) * net == -(uy * net)) && ((-uz) * net == -(uz
                    * net))) by (nonlinear_arith)
                    requires
                        -(s as int) <= ux <= s,
                        -(s as int) <= uy <= s,
                        -(s as int) <= uz <= s,
                        0 <= net <= FX_LIM,
                        s == 1000,
                        FX_LIM == 3_000_000_000,
                ;
                crate::vec2::lemma_div_mag_le(ux * net, s, FX_LIM as int);
                crate::vec2::lemma_div_mag_le(uy * net, s, FX_LIM as int);
                crate::vec2::lemma_div_mag_le(uz * net, s, FX_LIM as int);
                crate::fixed::lemma_div_tz_odd(ux * net, s);
                crate::fixed::lemma_div_tz_odd(uy * net, s);
                crate::fixed::lemma_div_tz_odd(uz * net, s);
            }
        }
    }
}

/// What `electric_force` returns: `k * |q1| * |q2| / dist^2` along the unit
/// vector from `p1` to `p2`, with the whole sign flipped for like charges —
/// the damping term softens the magnitude the same way in both directions —
/// and with the same degenerate-geometry and range guards as
/// `grav_force_spec`.
pub open spec fn electric_force_spec(p1: Particle, p2: Particle, kc: int, k: int) -> Vec3 {
    let r = sep_spec(p1, p2);
    if r.x == 0 && r.y == 0 && r.z == 0 {
        Vec3 { x: 0, y: 0, z: 0 }
    } else {
        let d = norm3_spec(r);
        let dd = fx_mul_spec(d, d);
        let a1 = abs_spec(p1.charge as int);
        let a2 = abs_spec(p2.charge as int);
        let num1 = fx_mul_spec(kc, a1);
        if dd == 0 || !fits_i64(num1 * a2) {
            Vec3 { x: 0, y: 0, z: 0 }
        } else {
            let force = fx_div_spec(fx_mul_spec(num1, a2), dd);
            if force > FX_LIM {
                Vec3 { x: 0, y: 0, z: 0 }
            } else {
                let dmp = damp_term_spec(force, k, d);
                let mag = if p1.charge * p2.charge > 0 {
                    -(force - dmp)
                } else {
                    force - dmp
                };
                let u = unit3_spec(r);
                Vec3 {
                    x: fx_mul_spec(u.x as int, mag) as i64,
                    y: fx_mul_spec(u.y as int, mag) as i64,
                    z: fx_mul_spec(u.z as int, mag) as i64,
                }
            }
        }
    }
}

/// Magnitude of an integer.
pub open spec fn abs_spec(x: int) -> int {
    if x >= 0 {
        x
    } else {
        -x
    }
}

/// Electrostatic force of `p1` toward (or away from) `p2`: inverse-square in
/// the charge magnitudes, repulsive for like charges, attractive otherwise,
/// softened by the optional damping term.
pub fn electric_force(p1: &Particle, p2: &Particle, kc: i64, dampen: i64) -> (r: Vec3)
    requires
        particle_wf(*p1),
        particle_wf(*p2),
        0 <= kc <= FX_LIM,
        0 <= dampen <= FX_LIM,
    ensures
        r == electric_force_spec(*p1, *p2, kc as int, dampen as int),
        in_lim3(r, FX_LIM as int),
{
    let rvec = p2.pos.sub(p1.pos);
    if rvec.x == 0 && rvec.y == 0 && rvec.z == 0 {
        return Vec3::zero();
    }
    let d: i64 = rvec.norm();
    let dd: i64 = fx_mul(d, d);
    let a1: i64 = if p1.charge >= 0 {
        p1.charge
    } else {
        -p1.charge
    };
    let a2: i64 = if p2.charge >= 0 {
        p2.charge
    } else {
        -p2.charge
    };
    let num1: i64 = fx_mul(kc, a1);
    proof {
        assert(0 <= kc * a1) by (nonlinear_arith)
            requires
                kc >= 0,
                a1 >= 0,
        ;
        crate::fixed::lemma_div_tz_bounds(kc * a1, SCALE as int);
        assert(0 <= d * d) by (nonlinear_arith)
            requires
                d >= 0,
        ;
        crate::fixed::lemma_div_tz_bounds(d * d, SCALE as int);
    }
    let num = match fx_mul_checked(num1, a2) {
        Some(v) => v,
        None => {
            return Vec3::zero();
        },
    };
    if dd == 0 {
        return Vec3::zero();
    }
    proof {
        assert(0 <= num1 * a2) by (nonlinear_arith)
            requires
                num1 >= 0,
                a2 >= 0,
        ;
        crate::fixed::lemma_div_tz_bounds(num1 * a2, SCALE as int);
        assert(fits_i64(num * SCALE)) by (nonlinear_arith)
            requires
                0 <= num,
                num * SCALE <= num1 * a2,
                fits_i64(num1 * a2),
        ;
    }
    let force: i64 = crate::fixed::fx_div(num, dd);
    proof {
        assert(0 <= num * SCALE) by (nonlinear_arith)
            requires
                0 <= num,
        ;
        crate::fixed::lemma_div_tz_bounds(num * SCALE, dd as int);
    }
    if force > FX_LIM {
        return Vec3::zero();
    }
    let dmp: i64 = if dampen > 0 {
        let kd: i64 = fx_mul(dampen, d);
        proof {
            assert(0 <= dampen * d) by (nonlinear_arith)
                requires
                    dampen >= 0,
                    d >= 0,
            ;
            crate::fixed::lemma_div_tz_bounds(dampen * d, SCALE as int);
        }
        crate::fixed::fx_div(force, SCALE + kd)
    } else {
        0
    };
    proof {
        lemma_dampened_bounds(force as int, dampen as int, d as int);
        assert(dmp == damp_term_spec(force as int, dampen as int, d as int));
    }
    let like: bool = (p1.charge > 0 && p2.charge > 0) || (p1.charge < 0 && p2.charge < 0);
    proof {
        assert(like == (p1.charge * p2.charge > 0)) by (nonlinear_arith)
            requires
                like == ((p1.charge > 0 && p2.charge > 0) || (p1.charge < 0 && p2.charge < 0)),
        ;
    }
    let mag: i64 = if like {
        dmp - force
    } else {
        force - dmp
    };
    let u = rvec.unit();
    proof {
        assert(fits_i64(u.x * mag) && fits_i64(u.y * mag) && fits_i64(u.z * mag) && -FX_LIM * SCALE
            <= u.x * mag <= FX_LIM * SCALE && -FX_LIM * SCALE <= u.y * mag <= FX_LIM * SCALE
            && -FX_LIM * SCALE <= u.z * mag <= FX_LIM * SCALE) by (nonlinear_arith)
            requires
                in_lim3(u, SCALE as int),
                -FX_LIM <= mag <= FX_LIM,
        ;
    }
    let r = u.smul(mag);
    proof {
        crate::vec2::lemma_div_mag_le(u.x * mag, SCALE as int, FX_LIM as int);
        crate::vec2::lemma_div_mag_le(u.y * mag, SCALE as int, FX_LIM as int);
        crate::vec2::lemma_div_mag_le(u.z * mag, SCALE as int, FX_LIM as int);
    }
    r
}

/// Two particles overlap when the distance between their centers is below
/// the sum of their radii; stated over the squares, which is equivalent and
/// exact.
pub open spec fn pair_colliding_spec(p1: Particle, p2: Particle) -> bool {
    norm3_sq_spec(sep_spec(p1, p2)) < (p1.radius + p2.radius) * (p1.radius + p2.radius)
}

/// Whether two particles overlap: the distance between the centers is below
/// the sum of the radii. Compared in squares, so the test is exact.
pub fn are_colliding(p1: &Particle, p2: &Particle) -> (r: bool)
    requires
        particle_wf(*p1),
        particle_wf(*p2),
    ensures
        r == pair_colliding_spec(*p1, *p2),
{
    let rvec = p2.pos.sub(p1.pos);
    let sum_r: i64 = p1.radius + p2.radius;
    proof {
        assert(0 <= sum_r * sum_r <= 2_560_000_000_000_000_000) by (nonlinear_arith)
            requires
                0 <= sum_r <= 1_600_000_000,
        ;
    }
    let sum_sq: i64 = sum_r.checked_mul(sum_r).unwrap();
    let dist_sq: i64 = rvec.norm_sq();
    dist_sq < sum_sq
}

/// What `calc_collision_imp` returns: the 1-D inelastic-collision impulse
/// `(1 + restitution) * m_reduced * (relative velocity along the collision
/// normal)`, oriented along the unit vector from `p1` to `p2`. Coincident
/// centers, out-of-range velocities and an unrepresentably small reduced
/// mass yield the zero impulse.
pub open spec fn collision_imp_spec(p1: Particle, p2: Particle, rest: int) -> Vec3 {
    let r = sep_spec(p1, p2);
    if r.x == 0 && r.y == 0 && r.z == 0 {
        Vec3 { x: 0, y: 0, z: 0 }
    } else {
        let v1 = vel_spec(p1);
        let v2 = vel_spec(p2);
        if !in_lim3(v1, VEL_GUARD as int) || !in_lim3(v2, VEL_GUARD as int) {
            Vec3 { x: 0, y: 0, z: 0 }
        } else {
            let inv1 = fx_div_spec(SCALE as int, p1.mass as int);
            let inv2 = fx_div_spec(SCALE as int, p2.mass as int);
            if inv1 + inv2 == 0 {
                Vec3 { x: 0, y: 0, z: 0 }
            } else {
                let m_red = fx_div_spec(SCALE as int, inv1 + inv2);
                let u = unit3_spec(r);
                let impact = div_tz(
                    u.x * (v2.x - v1.x) + u.y * (v2.y - v1.y) + u.z * (v2.z - v1.z),
                    SCALE as int,
                );
                let imp = fx_mul_spec(fx_mul_spec(SCALE + rest, m_red), impact);
                Vec3 {
                    x: fx_mul_spec(u.x as int, imp) as i64,
                    y: fx_mul_spec(u.y as int, imp) as i64,
                    z: fx_mul_spec(u.z as int, imp) as i64,
                }
            }
        }
    }
}

/// A particle's velocity: momentum over mass, componentwise.
pub open spec fn vel_spec(p: Particle) -> Vec3 {
    Vec3 {
        x: fx_div_spec(p.momentum.x as int, p.mass as int) as i64,
        y: fx_div_spec(p.momentum.y as int, p.mass as int) as i64,
        z: fx_div_spec(p.momentum.z as int, p.mass as int) as i64,
    }
}

/// The velocity of a well-formed particle fits in an `i64` componentwise.
proof fn lemma_vel_fits(p: Particle)
    requires
        particle_wf(p),
    ensures
        vel_spec(p) == (Vec3 {
            x: fx_div_spec(p.momentum.x as int, p.mass as int) as i64,
            y: fx_div_spec(p.momentum.y as int, p.mass as int) as i64,
            z: fx_div_spec(p.momentum.z as int, p.mass as int) as i64,
        }),
        -P_LIM * SCALE <= fx_div_spec(p.momentum.x as int, p.mass as int) <= P_LIM * SCALE,
        -P_LIM * SCALE <= fx_div_spec(p.momentum.y as int, p.mass as int) <= P_LIM * SCALE,
        -P_LIM * SCALE <= fx_div_spec(p.momentum.z as int, p.mass as int) <= P_LIM * SCALE,
{
    crate::fixed::lemma_div_tz_bounds(p.momentum.x * SCALE, p.mass as int);
    crate::fixed::lemma_div_tz_bounds(p.momentum.y * SCALE, p.mass as int);
    crate::fixed::lemma_div_tz_bounds(p.momentum.z * SCALE, p.mass as int);
}

/// The impulse exchanged when two particles collide: the one-dimensional
/// inelastic formula applied along the collision direction, scaled by the
/// restitution parameter (`SCALE` would be fully elastic input handling).
pub fn calc_collision_imp(p1: &Particle, p2: &Particle, restitution: i64) -> (r: Vec3)
    requires
        particle_wf(*p1),
        particle_wf(*p2),
        0 <= restitution <= SCALE,
    ensures
        r == collision_imp_spec(*p1, *p2, restitution as int),
        in_lim3(r, IMPULSE_LIM as int),
{
    let rvec = p2.pos.sub(p1.pos);
    if rvec.x == 0 && rvec.y == 0 && rvec.z == 0 {
        return Vec3::zero();
    }
    proof {
        lemma_vel_fits(*p1);
        lemma_vel_fits(*p2);
    }
    let v1 = Vec3::new(
        crate::fixed::fx_div(p1.momentum.x, p1.mass),
        crate::fixed::fx_div(p1.momentum.y, p1.mass),
        crate::fixed::fx_div(p1.momentum.z, p1.mass),
    );
    let v2 = Vec3::new(
        crate::fixed::fx_div(p2.momentum.x, p2.mass),
        crate::fixed::fx_div(p2.momentum.y, p2.mass),
        crate::fixed::fx_div(p2.momentum.z, p2.mass),
    );
    if !v1.within(VEL_GUARD) || !v2.within(VEL_GUARD) {
        return Vec3::zero();
    }
    let inv1: i64 = crate::fixed::fx_div(SCALE, p1.mass);
    let inv2: i64 = crate::fixed::fx_div(SCALE, p2.mass);
    proof {
        crate::fixed::lemma_div_tz_bounds(SCALE * SCALE, p1.mass as int);
        crate::fixed::lemma_div_tz_bounds(SCALE * SCALE, p2.mass as int);
    }
    let inv_sum: i64 = inv1 + inv2;
    if inv_sum == 0 {
        return Vec3::zero();
    }
    let m_red: i64 = crate::fixed::fx_div(SCALE, inv_sum);
    proof {
        crate::fixed::lemma_div_tz_bounds(SCALE * SCALE, inv_sum as int);
    }
    let u = rvec.unit();
    let rel = v2.sub(v1);
    proof {
        assert(-3_000_000_000_000 <= u.x * rel.x + u.y * rel.y + u.z * rel.z
            <= 3_000_000_000_000) by (nonlinear_arith)
            requires
                -1000 <= u.x <= 1000,
                -1000 <= u.y <= 1000,
                -1000 <= u.z <= 1000,
                -1_000_000_000 <= rel.x <= 1_000_000_000,
                -1_000_000_000 <= rel.y <= 1_000_000_000,
                -1_000_000_000 <= rel.z <= 1_000_000_000,
        ;
        crate::vec2::lemma_div_mag_le(
            u.x * rel.x + u.y * rel.y + u.z * rel.z,
            SCALE as int,
            FX_LIM as int,
        );
    }
    let impact: i64 = u.dot(rel);
    let one_plus: i64 = SCALE + restitution;
    proof {
        assert(0 <= one_plus * m_red <= 2_000_000_000) by (nonlinear_arith)
            requires
                0 <= one_plus <= 2000,
                0 <= m_red <= 1_000_000,
        ;
        crate::vec2::lemma_div_mag_le(one_plus * m_red, SCALE as int, 2_000_000 as int);
    }
    let imp1: i64 = fx_mul(one_plus, m_red);
    proof {
        assert(-6_000_000_000_000_000 <= imp1 * impact
            <= 6_000_000_000_000_000) by (nonlinear_arith)
            requires
                0 <= imp1 <= 2_000_000,
                -3_000_000_000 <= impact <= 3_000_000_000,
        ;
        crate::vec2::lemma_div_mag_le(imp1 * impact, SCALE as int, IMPULSE_LIM as int);
    }
    let imp: i64 = fx_mul(imp1, impact);
    proof {
        assert(-6_000_000_000_000_000 <= u.x * imp <= 6_000_000_000_000_000
            && -6_000_000_000_000_000 <= u.y * imp <= 6_000_000_000_000_000
            && -6_000_000_000_000_000 <= u.z * imp <= 6_000_000_000_000_000) by (nonlinear_arith)
            requires
                -1000 <= u.x <= 1000,
                -1000 <= u.y <= 1000,
                -1000 <= u.z <= 1000,
                -6_000_000_000_000 <= imp <= 6_000_000_000_000,
        ;
    }
    let r = u.smul(imp);
    proof {
        crate::vec2::lemma_div_mag_le(u.x * imp, SCALE as int, IMPULSE_LIM as int);
        crate::vec2::lemma_div_mag_le(u.y * imp, SCALE as int, IMPULSE_LIM as int);
        crate::vec2::lemma_div_mag_le(u.z * imp, SCALE as int, IMPULSE_LIM as int);
    }
    r
}

/// Shift a particle's position by the given deltas; momentum and the other
/// fields are untouched.
pub fn translate(p: &mut Particle, x: i64, y: i64, z: i64)
    requires
        particle_wf(*old(p)),
        -P_LIM <= old(p).pos.x + x <= P_LIM,
        -P_LIM <= old(p).pos.y + y <= P_LIM,
        -P_LIM <= old(p).pos.z + z <= P_LIM,
    ensures
        final(p).pos.x == old(p).pos.x + x,
        final(p).pos.y == old(p).pos.y + y,
        final(p).pos.z == old(p).pos.z + z,
        final(p).momentum == old(p).momentum,
        final(p).mass == old(p).mass,
        final(p).radius == old(p).radius,
        final(p).charge == old(p).charge,
        particle_wf(*final(p)),
{
    p.pos.x = p.pos.x + x;
    p.pos.y = p.pos.y + y;
    p.pos.z = p.pos.z + z;
}

/// Build a particle with unit radius and no charge, the way scene setup
/// does; a non-positive or oversized mass, or coordinates outside the
/// working range, are rejected as an invalid configuration.
pub fn particle(pos: Vec3, momentum: Vec3, mass: i64) -> (r: Result<Particle, SimError>)
    ensures
        (r is Ok) == (1 <= mass <= P_LIM && in_lim3(pos, P_LIM as int) && in_lim3(
            momentum,
            P_LIM as int,
        )),
        r matches Ok(p) ==> p == (Particle { pos, momentum, mass, radius: SCALE, charge: 0 })
            && particle_wf(p),
        r matches Err(e) ==> e is InvalidConfiguration,
{
    if mass < 1 || mass > P_LIM || !pos.within(P_LIM) || !momentum.within(P_LIM) {
        return Err(SimError::InvalidConfiguration);
    }
    Ok(Particle { pos, momentum, mass, radius: SCALE, charge: 0 })
}

} // verus!
