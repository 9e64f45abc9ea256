//! Collision response and force arithmetic for the 2D scene: velocity
//! reflection against a surface, the per-axis inelastic exchange between two
//! balls, positional separation, and the force-generator set.

use crate::error::SimError;
use crate::fixed::{
    decay, div_tz, fits_i64, fx_div_spec, fx_mul, fx_mul_spec, fx_mul_wide, decay_spec, FX_LIM,
    SCALE,
};
use crate::shapes::{Ball, W_LIM};
use crate::vec2::{in_lim, norm_spec, unit_spec, Vec2, VEC_LIM};
use vstd::prelude::*;

verus! {

/// A transient collision record: how far to push the body and the velocity
/// it leaves with. Produced by the narrow-phase pass, consumed by the apply
/// pass, never kept.
#[derive(Clone, Copy, Debug, PartialEq, Eq, Structural)]
pub struct Collision {
    pub translate_by: Vec2,
    pub vf: Vec2,
}

impl Collision {
    pub fn new(translate_by: Vec2, vf: Vec2) -> (r: Collision)
        ensures
            r == (Collision { translate_by, vf }),
    {
        Collision { translate_by, vf }
    }
}

/// Acceleration from a net force: force over mass, componentwise.
pub fn calc_acceleration(force: &Vec2, mass: i64) -> (r: Vec2)
    requires
        1 <= mass,
        in_lim(*force, VEC_LIM as int),
    ensures
        r.x == fx_div_spec(force.x as int, mass as int),
        r.y == fx_div_spec(force.y as int, mass as int),
        in_lim(r, VEC_LIM as int * SCALE),
{
    proof {
        crate::fixed::lemma_div_tz_bounds(force.x * SCALE, mass as int);
        crate::fixed::lemma_div_tz_bounds(force.y * SCALE, mass as int);
    }
    Vec2 { x: crate::fixed::fx_div(force.x, mass), y: crate::fixed::fx_div(force.y, mass) }
}

/// Explicit velocity update: `v + a * dt`, componentwise.
pub fn calc_vel(current_velocity: &Vec2, acceleration: &Vec2, dt: i64) -> (r: Vec2)
    requires
        fits_i64(acceleration.x * dt),
        fits_i64(acceleration.y * dt),
        fits_i64(current_velocity.x + fx_mul_spec(acceleration.x as int, dt as int)),
        fits_i64(current_velocity.y + fx_mul_spec(acceleration.y as int, dt as int)),
    ensures
        r.x == current_velocity.x + fx_mul_spec(acceleration.x as int, dt as int),
        r.y == current_velocity.y + fx_mul_spec(acceleration.y as int, dt as int),
{
    let dx: i64 = fx_mul_wide(acceleration.x, dt);
    let dy: i64 = fx_mul_wide(acceleration.y, dt);
    Vec2 { x: current_velocity.x + dx, y: current_velocity.y + dy }
}

/// Explicit position update: `x + v * dt`, componentwise.
pub fn calc_pos(current_pos: &Vec2, vel: &Vec2, dt: i64) -> (r: Vec2)
    requires
        fits_i64(vel.x * dt),
        fits_i64(vel.y * dt),
        fits_i64(current_pos.x + fx_mul_spec(vel.x as int, dt as int)),
        fits_i64(current_pos.y + fx_mul_spec(vel.y as int, dt as int)),
    ensures
        r.x == current_pos.x + fx_mul_spec(vel.x as int, dt as int),
        r.y == current_pos.y + fx_mul_spec(vel.y as int, dt as int),
{
    let dx: i64 = fx_mul_wide(vel.x, dt);
    let dy: i64 = fx_mul_wide(vel.y, dt);
    Vec2 { x: current_pos.x + dx, y: current_pos.y + dy }
}

/// The component of `v` along the unit vector of `normal`, as the response
/// math computes it: `unit * (unit . v)`.
pub open spec fn normal_component_spec(normal: Vec2, v: Vec2) -> Vec2 {
    let u = unit_spec(normal);
    let d = div_tz(u.x * v.x + u.y * v.y, SCALE as int);
    Vec2 { x: fx_mul_spec(u.x as int, d) as i64, y: fx_mul_spec(u.y as int, d) as i64 }
}

/// What `wall_collision_velocity` returns: the velocity decomposed against
/// the surface normal; the normal part reversed and scaled by the
/// restitution, the tangential part damped exponentially by friction over
/// the timestep. A zero normal leaves the velocity untouched, and a damping
/// argument beyond the fixed-point range damps the tangential part away
/// entirely.
pub open spec fn wall_velocity_spec(normal: Vec2, c_r: int, friction: int, dt: int, v: Vec2) -> Vec2 {
    if normal.x == 0 && normal.y == 0 {
        v
    } else {
        let vn = normal_component_spec(normal, v);
        let vtx = v.x - vn.x;
        let vty = v.y - vn.y;
        let arg = fx_mul_spec(friction, dt);
        let keep = if arg <= FX_LIM {
            decay_spec(arg)
        } else {
            0
        };
        Vec2 {
            x: (fx_mul_spec(vn.x as int, -c_r) + fx_mul_spec(vtx, keep)) as i64,
            y: (fx_mul_spec(vn.y as int, -c_r) + fx_mul_spec(vty, keep)) as i64,
        }
    }
}

/// Post-collision velocity of a ball against a static surface. With full
/// restitution and no friction the normal part is exactly negated and the
/// tangential part exactly kept; with zero restitution the normal part is
/// exactly zero.
pub fn wall_collision_velocity(normal: Vec2, c_r: i64, friction: i64, dt: i64, ball: &Ball) -> (r:
    Vec2)
    requires
        in_lim(normal, VEC_LIM as int),
        crate::shapes::ball_wf(*ball),
        0 <= c_r <= SCALE,
        0 <= friction,
        0 < dt,
        fits_i64(friction * dt),
    ensures
        r == wall_velocity_spec(normal, c_r as int, friction as int, dt as int, ball.velocity),
        in_lim(r, 2 * VEC_LIM as int),
{
    if normal.x == 0 && normal.y == 0 {
        proof {
            assert(in_lim(ball.velocity, 2 * VEC_LIM as int));
        }
        return ball.velocity;
    }
    let u = normal.unit();
    let d: i64 = u.dot(ball.velocity);
    proof {
        assert(-1_000_000_000_000 <= u.x * ball.velocity.x + u.y * ball.velocity.y
            <= 1_000_000_000_000) by (nonlinear_arith)
            requires
                -1000 <= u.x <= 1000,
                -1000 <= u.y <= 1000,
                -500_000_000 <= ball.velocity.x <= 500_000_000,
                -500_000_000 <= ball.velocity.y <= 500_000_000,
        ;
        crate::vec2::lemma_div_mag_le(
            u.x * ball.velocity.x + u.y * ball.velocity.y,
            SCALE as int,
            1_000_000_000,
        );
        assert(-1_000_000_000_000 <= u.x * d <= 1_000_000_000_000 && -1_000_000_000_000 <= u.y * d
            <= 1_000_000_000_000) by (nonlinear_arith)
            requires
                -1000 <= u.x <= 1000,
                -1000 <= u.y <= 1000,
                -1_000_000_000 <= d <= 1_000_000_000,
        ;
    }
    let vn = u.smul(d);
    proof {
        crate::vec2::lemma_div_mag_le(u.x * d, SCALE as int, 1_000_000_000);
        crate::vec2::lemma_div_mag_le(u.y * d, SCALE as int, 1_000_000_000);
    }
    let vtx: i64 = ball.velocity.x - vn.x;
    let vty: i64 = ball.velocity.y - vn.y;
    proof {
        assert(0 <= friction * dt) by (nonlinear_arith)
            requires
                0 <= friction,
                0 < dt,
        ;
        crate::fixed::lemma_div_tz_bounds(friction * dt, SCALE as int);
    }
    let arg: i64 = fx_mul_wide(friction, dt);
    let keep: i64 = if arg <= FX_LIM {
        decay(arg)
    } else {
        0
    };
    proof {
        assert(-1_200_000_000_000 <= vn.x * (-c_r) <= 1_200_000_000_000 && -1_200_000_000_000
            <= vn.y * (-c_r) <= 1_200_000_000_000 && -1_600_000_000_000 <= vtx * keep
            <= 1_600_000_000_000 && -1_600_000_000_000 <= vty * keep
            <= 1_600_000_000_000) by (nonlinear_arith)
            requires
                -1_000_000_000 <= vn.x <= 1_000_000_000,
                -1_000_000_000 <= vn.y <= 1_000_000_000,
                -1_500_000_000 <= vtx <= 1_500_000_000,
                -1_500_000_000 <= vty <= 1_500_000_000,
                0 <= c_r <= 1000,
                0 <= keep <= 1000,
        ;
    }
    let rnx: i64 = fx_mul_wide(vn.x, -c_r);
    let rny: i64 = fx_mul_wide(vn.y, -c_r);
    let rtx: i64 = fx_mul_wide(vtx, keep);
    let rty: i64 = fx_mul_wide(vty, keep);
    proof {
        crate::vec2::lemma_div_mag_le(vn.x * (-c_r), SCALE as int, 1_200_000_000);
        crate::vec2::lemma_div_mag_le(vn.y * (-c_r), SCALE as int, 1_200_000_000);
        crate::vec2::lemma_div_mag_le(vtx * keep, SCALE as int, 1_600_000_000);
        crate::vec2::lemma_div_mag_le(vty * keep, SCALE as int, 1_600_000_000);
    }
    Vec2 { x: rnx + rtx, y: rny + rty }
}

/// Full restitution without friction reflects the normal part exactly: the
/// outgoing velocity is the incoming one with the normal component negated,
/// to the unit.
pub proof fn lemma_wall_reflects_exactly(normal: Vec2, dt: int, v: Vec2)
    requires
        !(normal.x == 0 && normal.y == 0),
        0 < dt,
    ensures
        ({
            let vn = normal_component_spec(normal, v);
            wall_velocity_spec(normal, SCALE as int, 0, dt, v) == Vec2 {
                x: (v.x - 2 * vn.x) as i64,
                y: (v.y - 2 * vn.y) as i64,
            }
        }),
{
    let vn = normal_component_spec(normal, v);
    assert(fx_mul_spec(0, dt) == 0) by {
        crate::fixed::lemma_div_tz_bounds(0, SCALE as int);
    }
    assert(decay_spec(0) == SCALE) by {
        assert(div_tz(0, 3) == 0);
        assert(div_tz(1_000_000, 1000) == 1000);
        assert(div_tz(1_000_000, 1000) == 1000);
        assert(fx_mul_spec(1000, 1000) == 1000);
    }
    lemma_scale_by_one(vn.x as int);
    lemma_scale_by_one(vn.y as int);
    lemma_scale_by_one(v.x - vn.x);
    lemma_scale_by_one(v.y - vn.y);
}

/// Zero restitution without friction removes the normal part exactly: the
/// outgoing velocity is the tangential component alone.
pub proof fn lemma_wall_absorbs_exactly(normal: Vec2, dt: int, v: Vec2)
    requires
        !(normal.x == 0 && normal.y == 0),
        0 < dt,
    ensures
        ({
            let vn = normal_component_spec(normal, v);
            wall_velocity_spec(normal, 0, 0, dt, v) == Vec2 {
                x: (v.x - vn.x) as i64,
                y: (v.y - vn.y) as i64,
            }
        }),
{
    let vn = normal_component_spec(normal, v);
    assert(fx_mul_spec(0, dt) == 0) by {
        crate::fixed::lemma_div_tz_bounds(0, SCALE as int);
    }
    assert(decay_spec(0) == SCALE) by {
        assert(div_tz(0, 3) == 0);
        assert(div_tz(1_000_000, 1000) == 1000);
        assert(div_tz(1_000_000, 1000) == 1000);
        assert(fx_mul_spec(1000, 1000) == 1000);
    }
    assert(fx_mul_spec(vn.x as int, 0) == 0 && fx_mul_spec(vn.y as int, 0) == 0) by {
        crate::fixed::lemma_div_tz_bounds(0, SCALE as int);
    }
    lemma_scale_by_one(v.x - vn.x);
    lemma_scale_by_one(v.y - vn.y);
}

/// What the per-axis inelastic exchange gives each side: the 1-D formula
/// `v = c_r * (m_other * (u_other - u_self) + m_a*u_a + m_b*u_b) / (m_a + m_b)`.
pub open spec fn elastic_mag_spec(m_a: int, m_b: int, u_a: int, u_b: int, c_r: int) -> (int, int) {
    let ma_ua = fx_mul_spec(m_a, u_a);
    let mb_ub = fx_mul_spec(m_b, u_b);
    let va = fx_div_spec(fx_mul_spec(c_r, fx_mul_spec(m_b, u_b - u_a) + ma_ua + mb_ub), m_a + m_b);
    let vb = fx_div_spec(fx_mul_spec(c_r, fx_mul_spec(m_a, u_a - u_b) + ma_ua + mb_ub), m_a + m_b);
    (va, vb)
}

/// One axis of the inelastic collision exchange.
fn elastic_collision_velocity_mag(m_a: i64, m_b: i64, u_a: i64, u_b: i64, c_r: i64) -> (r: (
    i64,
    i64,
))
    requires
        1 <= m_a <= W_LIM,
        1 <= m_b <= W_LIM,
        -W_LIM <= u_a <= W_LIM,
        -W_LIM <= u_b <= W_LIM,
        0 <= c_r <= SCALE,
    ensures
        r.0 == elastic_mag_spec(m_a as int, m_b as int, u_a as int, u_b as int, c_r as int).0,
        r.1 == elastic_mag_spec(m_a as int, m_b as int, u_a as int, u_b as int, c_r as int).1,
        -3 * W_LIM <= r.0 <= 3 * W_LIM,
        -3 * W_LIM <= r.1 <= 3 * W_LIM,
{
    let ma_ua: i64 = fx_mul(m_a, u_a);
    let mb_ub: i64 = fx_mul(m_b, u_b);
    let cross_a: i64 = fx_mul(m_b, u_b - u_a);
    let cross_b: i64 = fx_mul(m_a, u_a - u_b);
    proof {
        assert(-250_000_000_000_000 * SCALE <= m_a * u_a <= 250_000_000_000_000 * SCALE
            && -250_000_000_000_000 * SCALE <= m_b * u_b <= 250_000_000_000_000 * SCALE
            && -500_000_000_000_000 * SCALE <= m_b * (u_b - u_a) <= 500_000_000_000_000 * SCALE
            && -500_000_000_000_000 * SCALE <= m_a * (u_a - u_b) <= 500_000_000_000_000
            * SCALE) by (nonlinear_arith)
            requires
                1 <= m_a <= 500_000_000,
                1 <= m_b <= 500_000_000,
                -500_000_000 <= u_a <= 500_000_000,
                -500_000_000 <= u_b <= 500_000_000,
                SCALE == 1000,
        ;
        crate::vec2::lemma_div_mag_le(m_a * u_a, SCALE as int, 250_000_000_000_000);
        crate::vec2::lemma_div_mag_le(m_b * u_b, SCALE as int, 250_000_000_000_000);
        crate::vec2::lemma_div_mag_le(m_b * (u_b - u_a), SCALE as int, 500_000_000_000_000);
        crate::vec2::lemma_div_mag_le(m_a * (u_a - u_b), SCALE as int, 500_000_000_000_000);
    }
    let sum_a: i64 = cross_a + ma_ua + mb_ub;
    let sum_b: i64 = cross_b + ma_ua + mb_ub;
    proof {
        assert(-1_000_000_000_000_000_000 <= c_r * sum_a <= 1_000_000_000_000_000_000
            && -1_000_000_000_000_000_000 <= c_r * sum_b
            <= 1_000_000_000_000_000_000) by (nonlinear_arith)
            requires
                0 <= c_r <= 1000,
                -1_000_000_000_000_000 <= sum_a <= 1_000_000_000_000_000,
                -1_000_000_000_000_000 <= sum_b <= 1_000_000_000_000_000,
        ;
        crate::vec2::lemma_div_mag_le(c_r * sum_a, SCALE as int, 1_000_000_000_000_000);
        crate::vec2::lemma_div_mag_le(c_r * sum_b, SCALE as int, 1_000_000_000_000_000);
    }
    let num_a: i64 = fx_mul_wide(c_r, sum_a);
    let num_b: i64 = fx_mul_wide(c_r, sum_b);
    proof {
        // Scaled back up, each truncated term is dominated by its raw
        // product, so the numerators stay within three velocity ranges
        // times the mass sum; the final quotient is then within three
        // velocity ranges.
        crate::fixed::lemma_div_tz_mul_le(m_a * u_a, SCALE as int);
        crate::fixed::lemma_div_tz_mul_le(m_b * u_b, SCALE as int);
        crate::fixed::lemma_div_tz_mul_le(m_b * (u_b - u_a), SCALE as int);
        crate::fixed::lemma_div_tz_mul_le(m_a * (u_a - u_b), SCALE as int);
        crate::fixed::lemma_div_tz_mul_le(c_r * sum_a, SCALE as int);
        crate::fixed::lemma_div_tz_mul_le(c_r * sum_b, SCALE as int);
        crate::fixed::lemma_div_tz_bounds(m_a * u_a, SCALE as int);
        crate::fixed::lemma_div_tz_bounds(m_b * u_b, SCALE as int);
        crate::fixed::lemma_div_tz_bounds(m_b * (u_b - u_a), SCALE as int);
        crate::fixed::lemma_div_tz_bounds(m_a * (u_a - u_b), SCALE as int);
        crate::fixed::lemma_div_tz_bounds(c_r * sum_a, SCALE as int);
        crate::fixed::lemma_div_tz_bounds(c_r * sum_b, SCALE as int);
        let k3: int = 3 * (W_LIM as int);
        let msum: int = m_a + m_b;
        assert(-(k3 * msum) <= (num_a as int) * SCALE <= k3 * msum && -(k3 * msum) <= (
        num_b as int) * SCALE <= k3 * msum) by (nonlinear_arith)
            requires
                k3 == 3 * (W_LIM as int),
                msum == m_a + m_b,
                m_a * u_a >= 0 ==> 0 <= (ma_ua as int) * SCALE <= m_a * u_a,
                m_a * u_a < 0 ==> m_a * u_a <= (ma_ua as int) * SCALE <= 0,
                m_b * u_b >= 0 ==> 0 <= (mb_ub as int) * SCALE <= m_b * u_b,
                m_b * u_b < 0 ==> m_b * u_b <= (mb_ub as int) * SCALE <= 0,
                m_b * (u_b - u_a) >= 0 ==> 0 <= (cross_a as int) * SCALE <= m_b * (u_b - u_a),
                m_b * (u_b - u_a) < 0 ==> m_b * (u_b - u_a) <= (cross_a as int) * SCALE <= 0,
                m_a * (u_a - u_b) >= 0 ==> 0 <= (cross_b as int) * SCALE <= m_a * (u_a - u_b),
                m_a * (u_a - u_b) < 0 ==> m_a * (u_a - u_b) <= (cross_b as int) * SCALE <= 0,
                c_r * sum_a >= 0 ==> 0 <= (num_a as int) * SCALE <= c_r * sum_a,
                c_r * sum_a < 0 ==> c_r * sum_a <= (num_a as int) * SCALE <= 0,
                c_r * sum_b >= 0 ==> 0 <= (num_b as int) * SCALE <= c_r * sum_b,
                c_r * sum_b < 0 ==> c_r * sum_b <= (num_b as int) * SCALE <= 0,
                sum_a == cross_a + ma_ua + mb_ub,
                sum_b == cross_b + ma_ua + mb_ub,
                1 <= m_a,
                1 <= m_b,
                -W_LIM <= u_a <= W_LIM,
                -W_LIM <= u_b <= W_LIM,
                0 <= c_r <= SCALE,
                SCALE == 1000,
                W_LIM == 500_000_000,
        ;
        crate::vec2::lemma_div_mag_le((num_a as int) * SCALE, msum, k3);
        crate::vec2::lemma_div_mag_le((num_b as int) * SCALE, msum, k3);
    }
    let va: i64 = crate::fixed::fx_div(num_a, m_a + m_b);
    let vb: i64 = crate::fixed::fx_div(num_b, m_a + m_b);
    (va, vb)
}

/// What the two-ball response gives each ball: the per-axis inelastic
/// exchange, applied to the x components and the y components separately,
/// with the lesser of the two elasticities. (Per-axis application is the
/// simulation's documented simplification: the exchange is not projected
/// onto the collision normal.)
pub open spec fn elastic_velocity_spec(a: Ball, b: Ball) -> (Vec2, Vec2) {
    let c_r = if a.elasticity <= b.elasticity {
        a.elasticity
    } else {
        b.elasticity
    };
    let x = elastic_mag_spec(
        a.mass as int,
        b.mass as int,
        a.velocity.x as int,
        b.velocity.x as int,
        c_r as int,
    );
    let y = elastic_mag_spec(
        a.mass as int,
        b.mass as int,
        a.velocity.y as int,
        b.velocity.y as int,
        c_r as int,
    );
    (Vec2 { x: x.0 as i64, y: y.0 as i64 }, Vec2 { x: x.1 as i64, y: y.1 as i64 })
}

/// Post-collision velocities of two colliding balls.
pub fn elastic_collision_velocity(ball_a: &Ball, ball_b: &Ball) -> (r: (Vec2, Vec2))
    requires
        crate::shapes::ball_wf(*ball_a),
        crate::shapes::ball_wf(*ball_b),
    ensures
        r == elastic_velocity_spec(*ball_a, *ball_b),
        in_lim(r.0, 3 * W_LIM as int),
        in_lim(r.1, 3 * W_LIM as int),
{
    let c_r: i64 = if ball_a.elasticity <= ball_b.elasticity {
        ball_a.elasticity
    } else {
        ball_b.elasticity
    };
    let (va_x, vb_x) = elastic_collision_velocity_mag(
        ball_a.mass,
        ball_b.mass,
        ball_a.velocity.x,
        ball_b.velocity.x,
        c_r,
    );
    let (va_y, vb_y) = elastic_collision_velocity_mag(
        ball_a.mass,
        ball_b.mass,
        ball_a.velocity.y,
        ball_b.velocity.y,
        c_r,
    );
    (Vec2 { x: va_x, y: va_y }, Vec2 { x: vb_x, y: vb_y })
}

/// Momentum conservation through the fully elastic exchange, up to
/// truncation: with restitution `SCALE`, the total momentum along one axis
/// after the exchange, `m_a * v_a + m_b * v_b`, differs from the total
/// before, `m_a * u_a + m_b * u_b`, by less than `3 * SCALE + m_a + m_b`
/// fixed-point units. The exact formula conserves momentum identically;
/// the residue is what the three rescalings (one unit each, weighted by a
/// mass) and the two mass-sum divisions (one unit each) can lose.
pub proof fn lemma_elastic_momentum_residue(m_a: int, m_b: int, u_a: int, u_b: int)
    requires
        1 <= m_a <= W_LIM,
        1 <= m_b <= W_LIM,
        -W_LIM <= u_a <= W_LIM,
        -W_LIM <= u_b <= W_LIM,
    ensures
        ({
            let r = elastic_mag_spec(m_a, m_b, u_a, u_b, SCALE as int);
            let residue = m_a * r.0 + m_b * r.1 - (m_a * u_a + m_b * u_b);
            -(3 * SCALE + m_a + m_b) < residue < 3 * SCALE + m_a + m_b
        }),
{
    let s = SCALE as int;
    let msum = m_a + m_b;
    let raw1 = m_b * (u_b - u_a);
    let raw1b = m_a * (u_a - u_b);
    let raw2 = m_a * u_a;
    let raw3 = m_b * u_b;
    let t1 = fx_mul_spec(m_b, u_b - u_a);
    let t1b = fx_mul_spec(m_a, u_a - u_b);
    let t2 = fx_mul_spec(m_a, u_a);
    let t3 = fx_mul_spec(m_b, u_b);
    let sum_a = t1 + t2 + t3;
    let sum_b = t1b + t2 + t3;
    crate::fixed::lemma_fx_mul_by_scale(sum_a);
    crate::fixed::lemma_fx_mul_by_scale(sum_b);
    let va = elastic_mag_spec(m_a, m_b, u_a, u_b, s).0;
    let vb = elastic_mag_spec(m_a, m_b, u_a, u_b, s).1;
    assert(va == div_tz(sum_a * s, msum) && vb == div_tz(sum_b * s, msum));
    crate::fixed::lemma_div_tz_residue(raw1, s);
    crate::fixed::lemma_div_tz_residue(raw1b, s);
    crate::fixed::lemma_div_tz_residue(raw2, s);
    crate::fixed::lemma_div_tz_residue(raw3, s);
    crate::fixed::lemma_div_tz_residue(sum_a * s, msum);
    crate::fixed::lemma_div_tz_residue(sum_b * s, msum);
    let r1 = raw1 - t1 * s;
    let r1b = raw1b - t1b * s;
    let r2 = raw2 - t2 * s;
    let r3 = raw3 - t3 * s;
    let ra = sum_a * s - va * msum;
    let rb = sum_b * s - vb * msum;
    let d = m_a * va + m_b * vb - (m_a * u_a + m_b * u_b);
    let xa = raw1 + raw2 + raw3 - (r1 + r2 + r3) - ra;
    let xb = raw1b + raw2 + raw3 - (r1b + r2 + r3) - rb;
    assert(sum_a * s == raw1 + raw2 + raw3 - (r1 + r2 + r3)) by (nonlinear_arith)
        requires
            sum_a == t1 + t2 + t3,
            t1 * s == raw1 - r1,
            t2 * s == raw2 - r2,
            t3 * s == raw3 - r3,
    ;
    assert(sum_b * s == raw1b + raw2 + raw3 - (r1b + r2 + r3)) by (nonlinear_arith)
        requires
            sum_b == t1b + t2 + t3,
            t1b * s == raw1b - r1b,
            t2 * s == raw2 - r2,
            t3 * s == raw3 - r3,
    ;
    assert(va * msum == xa && vb * msum == xb);
    assert(m_a * (va * msum) == m_a * xa && m_b * (vb * msum) == m_b * xb);
    assert(m_a * xa == m_a * raw1 + m_a * raw2 + m_a * raw3 - m_a * (r1 + r2 + r3) - m_a
        * ra) by (nonlinear_arith)
        requires
            xa == raw1 + raw2 + raw3 - (r1 + r2 + r3) - ra,
    ;
    assert(m_b * xb == m_b * raw1b + m_b * raw2 + m_b * raw3 - m_b * (r1b + r2 + r3) - m_b
        * rb) by (nonlinear_arith)
        requires
            xb == raw1b + raw2 + raw3 - (r1b + r2 + r3) - rb,
    ;
    assert(m_a * raw1 + m_b * raw1b == 0) by (nonlinear_arith)
        requires
            raw1 == m_b * (u_b - u_a),
            raw1b == m_a * (u_a - u_b),
    ;
    assert(m_a * raw2 + m_b * raw2 == msum * raw2 && m_a * raw3 + m_b * raw3 == msum
        * raw3) by (nonlinear_arith)
        requires
            msum == m_a + m_b,
    ;
    assert(msum * (m_a * u_a + m_b * u_b) == msum * raw2 + msum * raw3) by (nonlinear_arith)
        requires
            raw2 == m_a * u_a,
            raw3 == m_b * u_b,
    ;
    assert(m_a * (va * msum) == (m_a * va) * msum && m_b * (vb * msum) == (m_b * vb)
        * msum) by (nonlinear_arith);
    assert(msum * d == (m_a * va) * msum + (m_b * vb) * msum - msum * (m_a * u_a + m_b
        * u_b)) by (nonlinear_arith)
        requires
            d == m_a * va + m_b * vb - (m_a * u_a + m_b * u_b),
    ;
    // Linear combination of the identities above: only the residues are
    // left.
    assert(msum * d == -(m_a * (r1 + r2 + r3) + m_a * ra + m_b * (r1b + r2 + r3) + m_b * rb));
    assert(-((3 * s) * m_a) < m_a * (r1 + r2 + r3) < (3 * s) * m_a && -((3 * s) * m_b) < m_b * (
    r1b + r2 + r3) < (3 * s) * m_b && -(msum * m_a) < m_a * ra < msum * m_a && -(msum * m_b) < m_b
        * rb < msum * m_b) by (nonlinear_arith)
        requires
            -s < r1 < s,
            -s < r1b < s,
            -s < r2 < s,
            -s < r3 < s,
            -msum < ra < msum,
            -msum < rb < msum,
            1 <= m_a,
            1 <= m_b,
            s == 1000,
    ;
    assert((3 * s) * m_a + (3 * s) * m_b == msum * (3 * s) && msum * m_a + msum * m_b == msum
        * msum) by (nonlinear_arith)
        requires
            msum == m_a + m_b,
    ;
    assert(-(3 * s + msum) < d < 3 * s + msum) by (nonlinear_arith)
        requires
            -(msum * (3 * s) + msum * msum) < msum * d < msum * (3 * s) + msum * msum,
            msum >= 2,
            s == 1000,
    ;
}

/// What `collision_position_delta` returns: the unit normal scaled by the
/// penetration depth, or zero for a negative depth or a zero normal.
pub open spec fn collision_delta_spec(normal: Vec2, depth: int) -> Vec2 {
    if normal.x == 0 && normal.y == 0 {
        Vec2 { x: 0, y: 0 }
    } else if depth >= 0 {
        let u = unit_spec(normal);
        Vec2 { x: fx_mul_spec(u.x as int, depth) as i64, y: fx_mul_spec(u.y as int, depth) as i64 }
    } else {
        Vec2 { x: 0, y: 0 }
    }
}

/// The separating translation for a collision of the given depth: along the
/// unit normal, no longer than the depth in either component.
pub fn collision_position_delta(normal: Vec2, depth: i64) -> (r: Vec2)
    requires
        in_lim(normal, VEC_LIM as int),
        depth <= 2 * W_LIM,
    ensures
        r == collision_delta_spec(normal, depth as int),
        depth >= 0 ==> in_lim(r, depth as int),
        depth < 0 ==> r == (Vec2 { x: 0, y: 0 }),
{
    if normal.x == 0 && normal.y == 0 {
        return Vec2 { x: 0, y: 0 };
    }
    if depth < 0 {
        return Vec2 { x: 0, y: 0 };
    }
    let u = normal.unit();
    proof {
        assert(-1000 * (depth as int) <= u.x * depth <= 1000 * (depth as int) && -1000 * (
        depth as int) <= u.y * depth <= 1000 * (depth as int) && fits_i64(u.x * depth) && fits_i64(
            u.y * depth,
        )) by (nonlinear_arith)
            requires
                -1000 <= u.x <= 1000,
                -1000 <= u.y <= 1000,
                0 <= depth <= 1_000_000_000,
        ;
    }
    let r = u.smul(depth);
    proof {
        crate::vec2::lemma_div_mag_le(u.x * depth, SCALE as int, depth as int);
        crate::vec2::lemma_div_mag_le(u.y * depth, SCALE as int, depth as int);
    }
    r
}

/// What `collision_force` returns: twice the normal component of the ball's
/// velocity, spread over a millisecond — the impulsive force that would
/// cancel the approach within one very short step.
pub open spec fn collision_force_spec(normal: Vec2, v: Vec2) -> Vec2 {
    if normal.x == 0 && normal.y == 0 {
        Vec2 { x: 0, y: 0 }
    } else {
        let u = unit_spec(normal);
        let d = div_tz(u.x * v.x + u.y * v.y, SCALE as int);
        Vec2 {
            x: (1000 * fx_mul_spec(u.x as int, 2 * d)) as i64,
            y: (1000 * fx_mul_spec(u.y as int, 2 * d)) as i64,
        }
    }
}

/// The impulsive reaction force of a collision.
pub fn collision_force(normal: Vec2, ball: &Ball) -> (r: Vec2)
    requires
        in_lim(normal, VEC_LIM as int),
        crate::shapes::ball_wf(*ball),
    ensures
        r == collision_force_spec(normal, ball.velocity),
{
    if normal.x == 0 && normal.y == 0 {
        return Vec2 { x: 0, y: 0 };
    }
    let u = normal.unit();
    let d: i64 = u.dot(ball.velocity);
    proof {
        assert(-1_000_000_000_000 <= u.x * ball.velocity.x + u.y * ball.velocity.y
            <= 1_000_000_000_000) by (nonlinear_arith)
            requires
                -1000 <= u.x <= 1000,
                -1000 <= u.y <= 1000,
                -500_000_000 <= ball.velocity.x <= 500_000_000,
                -500_000_000 <= ball.velocity.y <= 500_000_000,
        ;
        crate::vec2::lemma_div_mag_le(
            u.x * ball.velocity.x + u.y * ball.velocity.y,
            SCALE as int,
            1_000_000_000,
        );
        assert(-2_000_000_000_000 <= u.x * (2 * d) <= 2_000_000_000_000 && -2_000_000_000_000
            <= u.y * (2 * d) <= 2_000_000_000_000) by (nonlinear_arith)
            requires
                -1000 <= u.x <= 1000,
                -1000 <= u.y <= 1000,
                -1_000_000_000 <= d <= 1_000_000_000,
        ;
    }
    let dx: i64 = fx_mul_wide(u.x, 2 * d);
    let dy: i64 = fx_mul_wide(u.y, 2 * d);
    proof {
        crate::vec2::lemma_div_mag_le(u.x * (2 * d), SCALE as int, 2_000_000_000);
        crate::vec2::lemma_div_mag_le(u.y * (2 * d), SCALE as int, 2_000_000_000);
    }
    Vec2 { x: dx * 1000, y: dy * 1000 }
}

/// What `project` returns: the projection of `b` onto `a`,
/// `a * (a . b) / (a . a)`, carried out in fixed point, and zero when `a`
/// has no length or when a component would leave the representable range.
pub open spec fn project_spec(a: Vec2, b: Vec2) -> Vec2 {
    let aa = a.x * a.x + a.y * a.y;
    if aa == 0 {
        Vec2 { x: 0, y: 0 }
    } else {
        let c = div_tz((a.x * b.x + a.y * b.y) * SCALE, aa);
        let px = fx_mul_spec(a.x as int, c);
        let py = fx_mul_spec(a.y as int, c);
        if fits_i64(px) && fits_i64(py) {
            Vec2 { x: px as i64, y: py as i64 }
        } else {
            Vec2 { x: 0, y: 0 }
        }
    }
}

/// Projection of `b` on `a`: the component of `b` along `a`'s direction.
pub fn project(a: &Vec2, b: &Vec2) -> (r: Vec2)
    requires
        in_lim(*a, W_LIM as int),
        in_lim(*b, W_LIM as int),
    ensures
        r == project_spec(*a, *b),
{
    proof {
        assert(0 <= a.x * a.x <= 250_000_000_000_000_000 && 0 <= a.y * a.y
            <= 250_000_000_000_000_000 && -250_000_000_000_000_000 <= a.x * b.x
            <= 250_000_000_000_000_000 && -250_000_000_000_000_000 <= a.y * b.y
            <= 250_000_000_000_000_000) by (nonlinear_arith)
            requires
                -500_000_000 <= a.x <= 500_000_000,
                -500_000_000 <= a.y <= 500_000_000,
                -500_000_000 <= b.x <= 500_000_000,
                -500_000_000 <= b.y <= 500_000_000,
        ;
    }
    let aa: i128 = (a.x as i128) * (a.x as i128) + (a.y as i128) * (a.y as i128);
    if aa == 0 {
        return Vec2 { x: 0, y: 0 };
    }
    let dot: i128 = (a.x as i128) * (b.x as i128) + (a.y as i128) * (b.y as i128);
    let c: i128 = crate::fixed::div_i128(dot * (SCALE as i128), aa);
    proof {
        crate::fixed::lemma_div_tz_bounds(dot * SCALE, aa as int);
        assert(-500_000_000_000_000_000_000 <= dot * SCALE
            <= 500_000_000_000_000_000_000) by (nonlinear_arith)
            requires
                -500_000_000_000_000_000 <= dot <= 500_000_000_000_000_000,
                SCALE == 1000,
        ;
        assert(-250_000_000_000_000_000_000_000_000_000 <= (a.x as int) * c
            <= 250_000_000_000_000_000_000_000_000_000
            && -250_000_000_000_000_000_000_000_000_000 <= (a.y as int) * c
            <= 250_000_000_000_000_000_000_000_000_000) by (nonlinear_arith)
            requires
                -500_000_000 <= a.x <= 500_000_000,
                -500_000_000 <= a.y <= 500_000_000,
                -500_000_000_000_000_000_000 <= c <= 500_000_000_000_000_000_000,
        ;
        crate::fixed::lemma_div_tz_bounds((a.x as int) * c, SCALE as int);
        crate::fixed::lemma_div_tz_bounds((a.y as int) * c, SCALE as int);
    }
    let px: i128 = crate::fixed::div_i128((a.x as i128) * c, SCALE as i128);
    let py: i128 = crate::fixed::div_i128((a.y as i128) * c, SCALE as i128);
    if (i64::MIN as i128) <= px && px <= (i64::MAX as i128) && (i64::MIN as i128) <= py && py <= (
    i64::MAX as i128) {
        Vec2 { x: px as i64, y: py as i64 }
    } else {
        Vec2 { x: 0, y: 0 }
    }
}

/// What `interpolate_mouse_force` returns: the force steered toward the
/// mouse, with a speed that saturates exponentially in the distance, then
/// blended with the current force by the damping fraction.
pub open spec fn interpolate_mouse_spec(
    ball_position: Vec2,
    mouse_position: Vec2,
    current_force: Vec2,
    max_speed: int,
    damping: int,
) -> Vec2 {
    let dirx = mouse_position.x - ball_position.x;
    let diry = mouse_position.y - ball_position.y;
    let dir = Vec2 { x: dirx as i64, y: diry as i64 };
    let grow = (SCALE as int) - decay_spec(div_tz(norm_spec(dir), 100));
    let speed = fx_mul_spec(max_speed, grow);
    let desired = if dirx == 0 && diry == 0 {
        Vec2 { x: 0, y: 0 }
    } else {
        let u = unit_spec(dir);
        Vec2 { x: fx_mul_spec(u.x as int, speed) as i64, y: fx_mul_spec(u.y as int, speed) as i64 }
    };
    Vec2 {
        x: (current_force.x + fx_mul_spec(desired.x - current_force.x, damping)) as i64,
        y: (current_force.y + fx_mul_spec(desired.y - current_force.y, damping)) as i64,
    }
}

/// Steer a force toward the mouse pointer: speed saturates with distance,
/// and the blend fraction smooths acceleration and deceleration.
pub fn interpolate_mouse_force(
    ball_position: Vec2,
    mouse_position: Vec2,
    current_force: Vec2,
    max_speed: i64,
    damping: i64,
) -> (r: Vec2)
    requires
        in_lim(ball_position, W_LIM as int),
        in_lim(mouse_position, W_LIM as int),
        in_lim(current_force, VEC_LIM as int),
        0 <= max_speed <= FX_LIM,
        0 <= damping <= SCALE,
    ensures
        r == interpolate_mouse_spec(
            ball_position,
            mouse_position,
            current_force,
            max_speed as int,
            damping as int,
        ),
{
    let dir = mouse_position.sub(ball_position);
    let distance: i64 = dir.norm();
    let arg: i64 = crate::fixed::div_i64(distance, 100);
    proof {
        crate::fixed::lemma_div_tz_bounds(distance as int, 100);
    }
    let grow: i64 = SCALE - decay(arg);
    proof {
        assert(-FX_LIM * SCALE <= max_speed * grow <= FX_LIM * SCALE) by (nonlinear_arith)
            requires
                0 <= max_speed <= 3_000_000_000,
                0 <= grow <= 1000,
                FX_LIM == 3_000_000_000,
                SCALE == 1000,
        ;
        crate::vec2::lemma_div_mag_le(max_speed * grow, SCALE as int, FX_LIM as int);
    }
    let speed: i64 = fx_mul_wide(max_speed, grow);
    let desired: Vec2 = if dir.x == 0 && dir.y == 0 {
        Vec2 { x: 0, y: 0 }
    } else {
        let u = dir.unit();
        proof {
            assert(-FX_LIM * SCALE <= u.x * speed <= FX_LIM * SCALE && -FX_LIM * SCALE <= u.y
                * speed <= FX_LIM * SCALE) by (nonlinear_arith)
                requires
                    -1000 <= u.x <= 1000,
                    -1000 <= u.y <= 1000,
                    0 <= speed <= 3_000_000_000,
                    FX_LIM == 3_000_000_000,
                    SCALE == 1000,
            ;
        }
        let v = u.smul(speed);
        proof {
            crate::vec2::lemma_div_mag_le(u.x * speed, SCALE as int, FX_LIM as int);
            crate::vec2::lemma_div_mag_le(u.y * speed, SCALE as int, FX_LIM as int);
        }
        v
    };
    let gapx: i64 = desired.x - current_force.x;
    let gapy: i64 = desired.y - current_force.y;
    proof {
        assert(-5_000_000_000_000 <= gapx * damping <= 5_000_000_000_000 && -5_000_000_000_000
            <= gapy * damping <= 5_000_000_000_000) by (nonlinear_arith)
            requires
                -5_000_000_000 <= gapx <= 5_000_000_000,
                -5_000_000_000 <= gapy <= 5_000_000_000,
                0 <= damping <= 1000,
        ;
        crate::vec2::lemma_div_mag_le(gapx * damping, SCALE as int, 5_000_000_000);
        crate::vec2::lemma_div_mag_le(gapy * damping, SCALE as int, 5_000_000_000);
    }
    let bx: i64 = fx_mul_wide(gapx, damping);
    let by: i64 = fx_mul_wide(gapy, damping);
    Vec2 { x: current_force.x + bx, y: current_force.y + by }
}

/// A constant pull toward a fixed point, for any entity.
#[derive(Clone, Copy, Debug, PartialEq, Eq, Structural)]
pub struct PointForceGenerator {
    /// Magnitude of the pull, fixed-point.
    pub strength: i64,
    /// Where the pull points to.
    pub position: Vec2,
    /// Index of the entity the generator is bound to.
    pub entity_idx: usize,
}

/// Parameter ranges a point generator works in.
pub open spec fn point_gen_wf(g: PointForceGenerator) -> bool {
    0 <= g.strength <= W_LIM && in_lim(g.position, W_LIM as int)
}

impl PointForceGenerator {
    pub fn new(strength: i64, position: Vec2, entity_idx: usize) -> (r: Result<
        PointForceGenerator,
        SimError,
    >)
        ensures
            (r is Ok) == (0 <= strength <= W_LIM && in_lim(position, W_LIM as int)),
            r matches Ok(g) ==> g == (PointForceGenerator { strength, position, entity_idx })
                && point_gen_wf(g),
            r matches Err(e) ==> e is InvalidConfiguration,
    {
        if strength < 0 || strength > W_LIM || !position.within(W_LIM) {
            return Err(SimError::InvalidConfiguration);
        }
        Ok(PointForceGenerator { strength, position, entity_idx })
    }

    pub fn get_entity_idx(&self) -> (r: usize)
        ensures
            r == self.entity_idx,
    {
        self.entity_idx
    }
}

/// What a point generator adds: the unit vector from the entity to the
/// generator, scaled by the strength, on top of the incoming force. An
/// entity out of the working range, a coincident position, or a result
/// outside the force range leaves the force unchanged (the pull is skipped
/// for the step, never misdirected).
pub open spec fn point_accumulate_spec(
    g: PointForceGenerator,
    state_position: Vec2,
    force: Vec2,
) -> Vec2 {
    let dx = g.position.x - state_position.x;
    let dy = g.position.y - state_position.y;
    if !(-VEC_LIM <= dx <= VEC_LIM && -VEC_LIM <= dy <= VEC_LIM) {
        force
    } else if dx == 0 && dy == 0 {
        force
    } else {
        let u = unit_spec(Vec2 { x: dx as i64, y: dy as i64 });
        let cx = force.x + fx_mul_spec(u.x as int, g.strength as int);
        let cy = force.y + fx_mul_spec(u.y as int, g.strength as int);
        if -VEC_LIM <= cx <= VEC_LIM && -VEC_LIM <= cy <= VEC_LIM {
            Vec2 { x: cx as i64, y: cy as i64 }
        } else {
            force
        }
    }
}

/// A spring pull toward a rest displacement, with velocity damping; it
/// replaces rather than accumulates, as the scene's spring pass expects.
#[derive(Clone, Copy, Debug, PartialEq, Eq, Structural)]
pub struct SpringForceGenerator {
    pub k: i64,
    pub b: i64,
    pub length: i64,
    pub displacement: Vec2,
    pub entity_idx: usize,
}

/// Parameter ranges a spring generator works in.
pub open spec fn spring_gen_wf(g: SpringForceGenerator) -> bool {
    0 <= g.k <= W_LIM && 0 <= g.b <= W_LIM && 0 <= g.length <= W_LIM && in_lim(
        g.displacement,
        W_LIM as int,
    )
}

impl SpringForceGenerator {
    pub fn get_entity_idx(&self) -> (r: usize)
        ensures
            r == self.entity_idx,
    {
        self.entity_idx
    }
}

/// What a spring generator adds: `k * displacement - b * velocity` on top
/// of the incoming force. An entity velocity out of the working range, or
/// a result outside the force range, leaves the force unchanged (the
/// contribution is skipped for the step, never misdirected).
pub open spec fn spring_accumulate_spec(
    g: SpringForceGenerator,
    state_velocity: Vec2,
    force: Vec2,
) -> Vec2 {
    if !in_lim(state_velocity, VEC_LIM as int) {
        force
    } else {
        let cx = force.x + fx_mul_spec(g.k as int, g.displacement.x as int) - fx_mul_spec(
            g.b as int,
            state_velocity.x as int,
        );
        let cy = force.y + fx_mul_spec(g.k as int, g.displacement.y as int) - fx_mul_spec(
            g.b as int,
            state_velocity.y as int,
        );
        if -VEC_LIM <= cx <= VEC_LIM && -VEC_LIM <= cy <= VEC_LIM {
            Vec2 { x: cx as i64, y: cy as i64 }
        } else {
            force
        }
    }
}

/// A uniform field along a fixed direction: it contributes
/// `mass * strength * direction`, gravity being the usual instance.
#[derive(Clone, Copy, Debug, PartialEq, Eq, Structural)]
pub struct ObjectForceGenerator {
    /// Field strength per unit mass, fixed-point.
    pub strength: i64,
    /// Unit direction (scaled by `SCALE`), or zero.
    pub direction: Vec2,
    /// Index of the entity the generator is bound to.
    pub entity_idx: usize,
}

/// Parameter ranges an object generator works in.
pub open spec fn object_gen_wf(g: ObjectForceGenerator) -> bool {
    0 <= g.strength <= W_LIM && in_lim(g.direction, SCALE as int)
}

impl ObjectForceGenerator {
    /// Build a directed-force generator; the direction is normalized, and a
    /// zero direction stays zero.
    pub fn new(strength: i64, direction: Vec2, entity_idx: usize) -> (r: Result<
        ObjectForceGenerator,
        SimError,
    >)
        ensures
            (r is Ok) == (0 <= strength <= W_LIM && in_lim(direction, VEC_LIM as int)),
            r matches Ok(g) ==> g.strength == strength && g.entity_idx == entity_idx
                && g.direction == (if direction.x == 0 && direction.y == 0 {
                Vec2 { x: 0, y: 0 }
            } else {
                unit_spec(direction)
            }) && object_gen_wf(g),
            r matches Err(e) ==> e is InvalidConfiguration,
    {
        if strength < 0 || strength > W_LIM || !direction.within(VEC_LIM) {
            return Err(SimError::InvalidConfiguration);
        }
        let dir: Vec2 = if direction.x == 0 && direction.y == 0 {
            Vec2 { x: 0, y: 0 }
        } else {
            direction.unit()
        };
        Ok(ObjectForceGenerator { strength, direction: dir, entity_idx })
    }

    /// The field vector per unit mass: strength along the direction.
    pub fn force(&self) -> (r: Vec2)
        requires
            object_gen_wf(*self),
        ensures
            r.x == fx_mul_spec(self.direction.x as int, self.strength as int),
            r.y == fx_mul_spec(self.direction.y as int, self.strength as int),
    {
        proof {
            assert(fits_i64(self.direction.x * self.strength) && fits_i64(
                self.direction.y * self.strength,
            )) by (nonlinear_arith)
                requires
                    -1000 <= self.direction.x <= 1000,
                    -1000 <= self.direction.y <= 1000,
                    0 <= self.strength <= 500_000_000,
            ;
        }
        self.direction.smul(self.strength)
    }

    pub fn get_entity_idx(&self) -> (r: usize)
        ensures
            r == self.entity_idx,
    {
        self.entity_idx
    }
}

/// What a uniform field adds: the entity's mass times the field vector, on
/// top of the incoming force; skipped when the sum leaves the force range.
pub open spec fn object_accumulate_spec(g: ObjectForceGenerator, mass: int, force: Vec2) -> Vec2 {
    let cx = force.x + fx_mul_spec(fx_mul_spec(g.direction.x as int, g.strength as int), mass);
    let cy = force.y + fx_mul_spec(fx_mul_spec(g.direction.y as int, g.strength as int), mass);
    if -VEC_LIM <= cx <= VEC_LIM && -VEC_LIM <= cy <= VEC_LIM {
        Vec2 { x: cx as i64, y: cy as i64 }
    } else {
        force
    }
}

/// The closed set of force generators: a tagged sum in place of open
/// dynamic dispatch, so each contribution has an exact contract.
#[derive(Clone, Copy, Debug, PartialEq, Eq, Structural)]
pub enum ForceGenerator {
    Point(PointForceGenerator),
    Spring(SpringForceGenerator),
    Object(ObjectForceGenerator),
}

/// Parameter ranges of whichever generator this is.
pub open spec fn gen_wf(g: ForceGenerator) -> bool {
    match g {
        ForceGenerator::Point(p) => point_gen_wf(p),
        ForceGenerator::Spring(s) => spring_gen_wf(s),
        ForceGenerator::Object(o) => object_gen_wf(o),
    }
}

/// What any generator turns the running force into.
pub open spec fn accumulate_spec(g: ForceGenerator, state: crate::solver::EntityState, force: Vec2) -> Vec2 {
    match g {
        ForceGenerator::Point(p) => point_accumulate_spec(p, state.position, force),
        ForceGenerator::Spring(s) => spring_accumulate_spec(s, state.velocity, force),
        ForceGenerator::Object(o) => object_accumulate_spec(o, state.mass as int, force),
    }
}

impl ForceGenerator {
    /// Thread the running force through this generator.
    pub fn accumulate(&self, entity_state: &crate::solver::EntityState, force: &Vec2) -> (r: Vec2)
        requires
            gen_wf(*self),
            in_lim(*force, VEC_LIM as int),
            1 <= entity_state.mass <= crate::shapes::W_LIM,
        ensures
            r == accumulate_spec(*self, *entity_state, *force),
            in_lim(r, VEC_LIM as int),
    {
        match self {
            ForceGenerator::Point(p) => {
                if !(p.position.x - VEC_LIM <= entity_state.position.x && entity_state.position.x
                    <= p.position.x + VEC_LIM && p.position.y - VEC_LIM <= entity_state.position.y
                    && entity_state.position.y <= p.position.y + VEC_LIM) {
                    return *force;
                }
                let dx: i64 = p.position.x - entity_state.position.x;
                let dy: i64 = p.position.y - entity_state.position.y;
                if dx == 0 && dy == 0 {
                    return *force;
                }
                let u = Vec2 { x: dx, y: dy }.unit();
                proof {
                    assert(fits_i64(u.x * p.strength) && fits_i64(u.y * p.strength)
                        && -500_000_000 * SCALE <= u.x * p.strength <= 500_000_000 * SCALE
                        && -500_000_000 * SCALE <= u.y * p.strength <= 500_000_000
                        * SCALE) by (nonlinear_arith)
                        requires
                            -1000 <= u.x <= 1000,
                            -1000 <= u.y <= 1000,
                            0 <= p.strength <= 500_000_000,
                            SCALE == 1000,
                    ;
                }
                let pull = u.smul(p.strength);
                proof {
                    crate::vec2::lemma_div_mag_le(u.x * p.strength, SCALE as int, 500_000_000);
                    crate::vec2::lemma_div_mag_le(u.y * p.strength, SCALE as int, 500_000_000);
                }
                let cx: i64 = force.x + pull.x;
                let cy: i64 = force.y + pull.y;
                if -VEC_LIM <= cx && cx <= VEC_LIM && -VEC_LIM <= cy && cy <= VEC_LIM {
                    Vec2 { x: cx, y: cy }
                } else {
                    *force
                }
            },
            ForceGenerator::Spring(s) => {
                if !entity_state.velocity.within(VEC_LIM) {
                    return *force;
                }
                proof {
                    assert(fits_i64(s.k * s.displacement.x) && fits_i64(s.k * s.displacement.y)
                        && fits_i64(s.b * entity_state.velocity.x) && fits_i64(
                        s.b * entity_state.velocity.y,
                    )) by (nonlinear_arith)
                        requires
                            0 <= s.k <= 500_000_000,
                            0 <= s.b <= 500_000_000,
                            -500_000_000 <= s.displacement.x <= 500_000_000,
                            -500_000_000 <= s.displacement.y <= 500_000_000,
                            -2_000_000_000 <= entity_state.velocity.x <= 2_000_000_000,
                            -2_000_000_000 <= entity_state.velocity.y <= 2_000_000_000,
                    ;
                }
                let kx: i64 = fx_mul_wide(s.k, s.displacement.x);
                let ky: i64 = fx_mul_wide(s.k, s.displacement.y);
                let bx: i64 = fx_mul_wide(s.b, entity_state.velocity.x);
                let by: i64 = fx_mul_wide(s.b, entity_state.velocity.y);
                proof {
                    crate::fixed::lemma_div_tz_bounds(s.k * s.displacement.x, SCALE as int);
                    crate::fixed::lemma_div_tz_bounds(s.k * s.displacement.y, SCALE as int);
                    crate::fixed::lemma_div_tz_bounds(s.b * entity_state.velocity.x, SCALE as int);
                    crate::fixed::lemma_div_tz_bounds(s.b * entity_state.velocity.y, SCALE as int);
                }
                let cx: i64 = force.x + kx - bx;
                let cy: i64 = force.y + ky - by;
                if -VEC_LIM <= cx && cx <= VEC_LIM && -VEC_LIM <= cy && cy <= VEC_LIM {
                    Vec2 { x: cx, y: cy }
                } else {
                    *force
                }
            },
            ForceGenerator::Object(o) => {
                let f = o.force();
                proof {
                    assert(-500_000_000 * SCALE <= o.direction.x * o.strength <= 500_000_000
                        * SCALE && -500_000_000 * SCALE <= o.direction.y * o.strength
                        <= 500_000_000 * SCALE) by (nonlinear_arith)
                        requires
                            -1000 <= o.direction.x <= 1000,
                            -1000 <= o.direction.y <= 1000,
                            0 <= o.strength <= 500_000_000,
                            SCALE == 1000,
                    ;
                    crate::vec2::lemma_div_mag_le(
                        o.direction.x * o.strength,
                        SCALE as int,
                        500_000_000,
                    );
                    crate::vec2::lemma_div_mag_le(
                        o.direction.y * o.strength,
                        SCALE as int,
                        500_000_000,
                    );
                    assert(-250_000_000_000_000_000 <= f.x * entity_state.mass
                        <= 250_000_000_000_000_000 && -250_000_000_000_000_000 <= f.y
                        * entity_state.mass <= 250_000_000_000_000_000) by (nonlinear_arith)
                        requires
                            -500_000_000 <= f.x <= 500_000_000,
                            -500_000_000 <= f.y <= 500_000_000,
                            1 <= entity_state.mass <= 500_000_000,
                    ;
                    crate::fixed::lemma_div_tz_bounds(f.x * entity_state.mass, SCALE as int);
                    crate::fixed::lemma_div_tz_bounds(f.y * entity_state.mass, SCALE as int);
                }
                let gx: i64 = fx_mul_wide(f.x, entity_state.mass);
                let gy: i64 = fx_mul_wide(f.y, entity_state.mass);
                let cx: i64 = force.x + gx;
                let cy: i64 = force.y + gy;
                if -VEC_LIM <= cx && cx <= VEC_LIM && -VEC_LIM <= cy && cy <= VEC_LIM {
                    Vec2 { x: cx, y: cy }
                } else {
                    *force
                }
            },
        }
    }

    /// Which entity the generator is bound to.
    pub fn get_entity_idx(&self) -> (r: usize)
        ensures
            r == (match *self {
                ForceGenerator::Point(p) => p.entity_idx,
                ForceGenerator::Spring(s) => s.entity_idx,
                ForceGenerator::Object(o) => o.entity_idx,
            }),
    {
        match self {
            ForceGenerator::Point(p) => p.entity_idx,
            ForceGenerator::Spring(s) => s.entity_idx,
            ForceGenerator::Object(o) => o.entity_idx,
        }
    }
}

/// Scaling by the fixed-point unit is the identity.
proof fn lemma_scale_by_one(x: int)
    ensures
        fx_mul_spec(x, SCALE as int) == x,
        fx_mul_spec(x, -(SCALE as int)) == -x,
{
    vstd::arithmetic::div_mod::lemma_div_multiples_vanish(x, SCALE as int);
    vstd::arithmetic::div_mod::lemma_div_multiples_vanish(-x, SCALE as int);
    assert(x * SCALE == x * 1000 && x * -1000 == -(x * 1000) && (-x) * 1000 == -(x
        * 1000)) by (nonlinear_arith);
}

} // verus!
