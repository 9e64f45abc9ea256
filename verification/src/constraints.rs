//! Positional constraints between bodies and the single-pass solver over
//! them. Each pass reads a snapshot of the scene, collects the corrections
//! into an update list, and only then are they applied — one correction per
//! constraint per frame, not relaxed to convergence.

use crate::fixed::{decay, decay_spec, div_tz, fx_div_spec, fx_mul_spec, FX_LIM, SCALE};
use crate::nbody::DT_LIM;
use crate::shapes::{shape_wf, Ball, Shape, W_LIM};
use crate::vec2::{in_lim, norm_spec, unit_spec, Vec2};
use vstd::prelude::*;

verus! {

/// A buffered correction for one body: collected during the solve pass,
/// applied afterwards.
#[derive(Clone, Copy, Debug, PartialEq, Eq, Structural)]
pub struct ConstraintUpdate {
    pub index: usize,
    pub velocity_update: Vec2,
    pub position_update: Vec2,
    pub force_update: Vec2,
}

impl Default for ConstraintUpdate {
    /// The empty correction for body zero.
    fn default() -> (r: ConstraintUpdate)
        ensures
            r == (ConstraintUpdate {
                index: 0,
                velocity_update: Vec2 { x: 0, y: 0 },
                position_update: Vec2 { x: 0, y: 0 },
                force_update: Vec2 { x: 0, y: 0 },
            }),
    {
        ConstraintUpdate {
            index: 0,
            velocity_update: Vec2 { x: 0, y: 0 },
            position_update: Vec2 { x: 0, y: 0 },
            force_update: Vec2 { x: 0, y: 0 },
        }
    }
}

/// Keep two bodies at a fixed distance, by direct position correction.
#[derive(Clone, Copy, Debug, PartialEq, Eq, Structural)]
pub struct DistanceConstraint {
    pub index_0: usize,
    pub index_1: usize,
    pub distance: i64,
}

impl DistanceConstraint {
    pub fn new(index_0: usize, index_1: usize, distance: i64) -> (r: DistanceConstraint)
        ensures
            r == (DistanceConstraint { index_0, index_1, distance }),
    {
        DistanceConstraint { index_0, index_1, distance }
    }
}

/// Couple two bodies with a spring of the given rest length, stiffness and
/// damping, solved by direct velocity deltas.
#[derive(Clone, Copy, Debug, PartialEq, Eq, Structural)]
pub struct SpringConstraint {
    pub index_0: usize,
    pub index_1: usize,
    pub distance: i64,
    pub k: i64,
    pub dampen: i64,
}

/// Pin one body to a fixed position each frame.
#[derive(Clone, Copy, Debug, PartialEq, Eq, Structural)]
pub struct FixedPointConstraint {
    pub index: usize,
    pub position: Vec2,
}

/// The closed set of constraints the solver knows.
#[derive(Clone, Copy, Debug, PartialEq, Eq, Structural)]
pub enum Constraint {
    Distance(DistanceConstraint),
    Spring(SpringConstraint),
    FixedPoint(FixedPointConstraint),
}

/// Parameter ranges a constraint works in, against a scene of `n` shapes.
pub open spec fn constraint_wf(c: Constraint, n: int) -> bool {
    match c {
        Constraint::Distance(d) => d.index_0 < n && d.index_1 < n && 0 <= d.distance <= W_LIM,
        Constraint::Spring(s) => s.index_0 < n && s.index_1 < n && 0 <= s.distance <= W_LIM && 0
            <= s.k <= SCALE * SCALE && 0 <= s.dampen <= W_LIM,
        Constraint::FixedPoint(f) => f.index < n && in_lim(f.position, W_LIM as int),
    }
}

/// The two spring corrections for a pair of balls: each end's velocity
/// moves by the spring force times the timestep over its mass, plus half
/// the damping correction that multiplies the relative velocity along the
/// axis by an exponential decay in `k * dt`. Coincident centers solve to
/// nothing.
pub open spec fn spring_updates_spec(c: SpringConstraint, b0: Ball, b1: Ball, dt: int) -> Seq<
    ConstraintUpdate,
> {
    let dx = b1.position.x - b0.position.x;
    let dy = b1.position.y - b0.position.y;
    if dx == 0 && dy == 0 {
        Seq::empty()
    } else {
        let delta = Vec2 { x: dx as i64, y: dy as i64 };
        let u = unit_spec(delta);
        let reqx = fx_mul_spec(u.x as int, c.distance as int);
        let reqy = fx_mul_spec(u.y as int, c.distance as int);
        let fx_ = fx_mul_spec(reqx - dx, c.k as int);
        let fy = fx_mul_spec(reqy - dy, c.k as int);
        let v0x = fx_div_spec(-fx_mul_spec(fx_, dt), b0.mass as int);
        let v0y = fx_div_spec(-fx_mul_spec(fy, dt), b0.mass as int);
        let v1x = fx_div_spec(fx_mul_spec(fx_, dt), b1.mass as int);
        let v1y = fx_div_spec(fx_mul_spec(fy, dt), b1.mass as int);
        let vrel = div_tz(
            u.x * (b1.velocity.x - b0.velocity.x) + u.y * (b1.velocity.y - b0.velocity.y),
            SCALE as int,
        );
        let arg = fx_mul_spec(c.k as int, dt);
        let keep = if arg <= FX_LIM {
            decay_spec(arg)
        } else {
            0
        };
        let vrel_delta = fx_mul_spec(vrel, keep) - vrel;
        let corrx = div_tz(fx_mul_spec(u.x as int, vrel_delta), 2);
        let corry = div_tz(fx_mul_spec(u.y as int, vrel_delta), 2);
        let u0 = ConstraintUpdate {
            index: c.index_0,
            velocity_update: Vec2 { x: (v0x - corrx) as i64, y: (v0y - corry) as i64 },
            position_update: Vec2 { x: 0, y: 0 },
            force_update: Vec2 { x: 0, y: 0 },
        };
        let u1 = ConstraintUpdate {
            index: c.index_1,
            velocity_update: Vec2 { x: (v1x + corrx) as i64, y: (v1y + corry) as i64 },
            position_update: Vec2 { x: 0, y: 0 },
            force_update: Vec2 { x: 0, y: 0 },
        };
        seq![u0, u1]
    }
}

/// The two distance corrections for a pair of balls: the separation excess
/// over the rest distance, split in half along the axis, moving the ends
/// toward each other (or apart). Coincident centers solve to nothing.
pub open spec fn distance_updates_spec(c: DistanceConstraint, b0: Ball, b1: Ball) -> Seq<
    ConstraintUpdate,
> {
    let dx = b1.position.x - b0.position.x;
    let dy = b1.position.y - b0.position.y;
    if dx == 0 && dy == 0 {
        Seq::empty()
    } else {
        let delta = Vec2 { x: dx as i64, y: dy as i64 };
        let u = unit_spec(delta);
        let corr = norm_spec(delta) - c.distance;
        let ox = div_tz(fx_mul_spec(u.x as int, corr), 2);
        let oy = div_tz(fx_mul_spec(u.y as int, corr), 2);
        let u0 = ConstraintUpdate {
            index: c.index_0,
            velocity_update: Vec2 { x: 0, y: 0 },
            position_update: Vec2 { x: ox as i64, y: oy as i64 },
            force_update: Vec2 { x: 0, y: 0 },
        };
        let u1 = ConstraintUpdate {
            index: c.index_1,
            velocity_update: Vec2 { x: 0, y: 0 },
            position_update: Vec2 { x: (-ox) as i64, y: (-oy) as i64 },
            force_update: Vec2 { x: 0, y: 0 },
        };
        seq![u0, u1]
    }
}

/// The pinning correction: the position delta back to the anchor.
pub open spec fn fixed_point_update_spec(c: FixedPointConstraint, b: Ball) -> Seq<
    ConstraintUpdate,
> {
    seq![
        ConstraintUpdate {
            index: c.index,
            velocity_update: Vec2 { x: 0, y: 0 },
            position_update: Vec2 {
                x: (c.position.x - b.position.x) as i64,
                y: (c.position.y - b.position.y) as i64,
            },
            force_update: Vec2 { x: 0, y: 0 },
        },
    ]
}

/// What one constraint contributes to the update list: its corrections when
/// both its indices name balls, nothing otherwise.
pub open spec fn constraint_updates_spec(c: Constraint, shapes: Seq<Shape>, dt: int) -> Seq<
    ConstraintUpdate,
> {
    match c {
        Constraint::Spring(s) => {
            match (shapes[s.index_0 as int], shapes[s.index_1 as int]) {
                (Shape::Ball(b0), Shape::Ball(b1)) => spring_updates_spec(s, b0, b1, dt),
                _ => Seq::empty(),
            }
        },
        Constraint::Distance(d) => {
            match (shapes[d.index_0 as int], shapes[d.index_1 as int]) {
                (Shape::Ball(b0), Shape::Ball(b1)) => distance_updates_spec(d, b0, b1),
                _ => Seq::empty(),
            }
        },
        Constraint::FixedPoint(f) => {
            match shapes[f.index as int] {
                Shape::Ball(b) => fixed_point_update_spec(f, b),
                _ => Seq::empty(),
            }
        },
    }
}

/// The update list of the whole pass: every constraint's corrections, in
/// order.
pub open spec fn solve_spec(shapes: Seq<Shape>, cs: Seq<Constraint>, dt: int, n: int) -> Seq<
    ConstraintUpdate,
>
    decreases n,
{
    if n <= 0 {
        Seq::empty()
    } else {
        solve_spec(shapes, cs, dt, n - 1) + constraint_updates_spec(cs[n - 1], shapes, dt)
    }
}

/// One pass of the constraint solver over a snapshot of the scene: collect
/// every constraint's corrections, in constraint order, without touching
/// the shapes. The spring correction is the analytic spring force times the
/// timestep over each mass — for a stretched pair at rest that is exactly
/// `-k * (distance - rest_length) * dt / mass` along the connecting axis,
/// with opposite signs at the two ends — plus the exponential damping of
/// the relative velocity along the axis.
pub fn solve_constraints(shapes: &Vec<Shape>, constraints: &Vec<Constraint>, dt: i64) -> (r: Vec<
    ConstraintUpdate,
>)
    requires
        forall|k: int| 0 <= k < shapes@.len() ==> shape_wf(#[trigger] shapes@[k]),
        forall|k: int|
            0 <= k < constraints@.len() ==> constraint_wf(
                #[trigger] constraints@[k],
                shapes@.len() as int,
            ),
        1 <= dt <= DT_LIM,
    ensures
        r@ == solve_spec(shapes@, constraints@, dt as int, constraints@.len() as int),
        forall|k: int| 0 <= k < r@.len() ==> (#[trigger] r@[k]).index < shapes@.len(),
{
    let mut out: Vec<ConstraintUpdate> = Vec::new();
    let n: usize = constraints.len();
    let mut i: usize = 0;
    while i < n
        invariant
            n == constraints@.len(),
            i <= n,
            forall|k: int| 0 <= k < shapes@.len() ==> shape_wf(#[trigger] shapes@[k]),
            forall|k: int|
                0 <= k < constraints@.len() ==> constraint_wf(
                    #[trigger] constraints@[k],
                    shapes@.len() as int,
                ),
            1 <= dt <= DT_LIM,
            out@ == solve_spec(shapes@, constraints@, dt as int, i as int),
            forall|k: int| 0 <= k < out@.len() ==> (#[trigger] out@[k]).index < shapes@.len(),
        decreases n - i,
    {
        let ghost pre = out@;
        match constraints[i] {
            Constraint::Spring(c) => {
                let s0 = shapes[c.index_0];
                let s1 = shapes[c.index_1];
                if let (Shape::Ball(b0), Shape::Ball(b1)) = (s0, s1) {
                    let delta = b1.position.sub(b0.position);
                    if !(delta.x == 0 && delta.y == 0) {
                        let u = delta.unit();
                        let reqx: i64 = crate::fixed::fx_mul(u.x, c.distance);
                        let reqy: i64 = crate::fixed::fx_mul(u.y, c.distance);
                        proof {
                            assert(-W_LIM * SCALE <= u.x * c.distance <= W_LIM * SCALE && -W_LIM
                                * SCALE <= u.y * c.distance <= W_LIM * SCALE) by (nonlinear_arith)
                                requires
                                    -1000 <= u.x <= 1000,
                                    -1000 <= u.y <= 1000,
                                    0 <= c.distance <= 500_000_000,
                                    SCALE == 1000,
                                    W_LIM == 500_000_000,
                            ;
                            crate::vec2::lemma_div_mag_le(u.x * c.distance, SCALE as int, W_LIM as int);
                            crate::vec2::lemma_div_mag_le(u.y * c.distance, SCALE as int, W_LIM as int);
                        }
                        let fx_: i64 = crate::fixed::fx_mul(reqx - delta.x, c.k);
                        let fy: i64 = crate::fixed::fx_mul(reqy - delta.y, c.k);
                        proof {
                            assert(-1_500_000_000_000 * SCALE <= (reqx - delta.x) * c.k
                                <= 1_500_000_000_000 * SCALE && -1_500_000_000_000 * SCALE <= (reqy
                                - delta.y) * c.k <= 1_500_000_000_000 * SCALE) by (nonlinear_arith)
                                requires
                                    -1_500_000_000 <= reqx - delta.x <= 1_500_000_000,
                                    -1_500_000_000 <= reqy - delta.y <= 1_500_000_000,
                                    0 <= c.k <= 1_000_000,
                                    SCALE == 1000,
                            ;
                            crate::vec2::lemma_div_mag_le(
                                (reqx - delta.x) * c.k,
                                SCALE as int,
                                1_500_000_000_000,
                            );
                            crate::vec2::lemma_div_mag_le(
                                (reqy - delta.y) * c.k,
                                SCALE as int,
                                1_500_000_000_000,
                            );
                        }
                        proof {
                            assert(-15_000_000_000_000_000 <= fx_ * dt <= 15_000_000_000_000_000
                                && -15_000_000_000_000_000 <= fy * dt
                                <= 15_000_000_000_000_000) by (nonlinear_arith)
                                requires
                                    -1_500_000_000_000 <= fx_ <= 1_500_000_000_000,
                                    -1_500_000_000_000 <= fy <= 1_500_000_000_000,
                                    1 <= dt <= 10_000,
                            ;
                            crate::vec2::lemma_div_mag_le(fx_ * dt, SCALE as int, 15_000_000_000_000);
                            crate::vec2::lemma_div_mag_le(fy * dt, SCALE as int, 15_000_000_000_000);
                        }
                        let fdtx: i64 = crate::fixed::fx_mul_wide(fx_, dt);
                        let fdty: i64 = crate::fixed::fx_mul_wide(fy, dt);
                        proof {
                            crate::fixed::lemma_div_tz_bounds((-fdtx) * SCALE, b0.mass as int);
                            crate::fixed::lemma_div_tz_bounds((-fdty) * SCALE, b0.mass as int);
                            crate::fixed::lemma_div_tz_bounds(fdtx * SCALE, b1.mass as int);
                            crate::fixed::lemma_div_tz_bounds(fdty * SCALE, b1.mass as int);
                        }
                        let v0x: i64 = crate::fixed::fx_div(-fdtx, b0.mass);
                        let v0y: i64 = crate::fixed::fx_div(-fdty, b0.mass);
                        let v1x: i64 = crate::fixed::fx_div(fdtx, b1.mass);
                        let v1y: i64 = crate::fixed::fx_div(fdty, b1.mass);
                        let vrel: i64 = u.dot(b1.velocity.sub(b0.velocity));
                        proof {
                            assert(-2_000_000_000_000 <= u.x * (b1.velocity.x - b0.velocity.x) + u.y
                                * (b1.velocity.y - b0.velocity.y)
                                <= 2_000_000_000_000) by (nonlinear_arith)
                                requires
                                    -1000 <= u.x <= 1000,
                                    -1000 <= u.y <= 1000,
                                    -1_000_000_000 <= b1.velocity.x - b0.velocity.x
                                        <= 1_000_000_000,
                                    -1_000_000_000 <= b1.velocity.y - b0.velocity.y
                                        <= 1_000_000_000,
                            ;
                            crate::vec2::lemma_div_mag_le(
                                u.x * (b1.velocity.x - b0.velocity.x) + u.y * (b1.velocity.y
                                    - b0.velocity.y),
                                SCALE as int,
                                2_000_000_000,
                            );
                            assert(0 <= c.k * dt <= 10_000_000_000) by (nonlinear_arith)
                                requires
                                    0 <= c.k <= 1_000_000,
                                    1 <= dt <= 10_000,
                            ;
                            crate::vec2::lemma_div_mag_le(c.k * dt, SCALE as int, 10_000_000);
                            crate::fixed::lemma_div_tz_bounds(c.k * dt, SCALE as int);
                        }
                        let arg: i64 = crate::fixed::fx_mul(c.k, dt);
                        let keep: i64 = if arg <= FX_LIM {
                            decay(arg)
                        } else {
                            0
                        };
                        proof {
                            assert(-2_000_000_000_000 <= vrel * keep
                                <= 2_000_000_000_000) by (nonlinear_arith)
                                requires
                                    -2_000_000_000 <= vrel <= 2_000_000_000,
                                    0 <= keep <= 1000,
                            ;
                            crate::vec2::lemma_div_mag_le(vrel * keep, SCALE as int, 2_000_000_000);
                        }
                        let new_vrel: i64 = crate::fixed::fx_mul_wide(vrel, keep);
                        let vrel_delta: i64 = new_vrel - vrel;
                        proof {
                            assert(-4_000_000_000_000 <= u.x * vrel_delta <= 4_000_000_000_000
                                && -4_000_000_000_000 <= u.y * vrel_delta
                                <= 4_000_000_000_000) by (nonlinear_arith)
                                requires
                                    -1000 <= u.x <= 1000,
                                    -1000 <= u.y <= 1000,
                                    -4_000_000_000 <= vrel_delta <= 4_000_000_000,
                            ;
                            crate::vec2::lemma_div_mag_le(u.x * vrel_delta, SCALE as int, 4_000_000_000);
                            crate::vec2::lemma_div_mag_le(u.y * vrel_delta, SCALE as int, 4_000_000_000);
                        }
                        let corrx: i64 = crate::fixed::div_i64(crate::fixed::fx_mul_wide(u.x, vrel_delta), 2);
                        let corry: i64 = crate::fixed::div_i64(crate::fixed::fx_mul_wide(u.y, vrel_delta), 2);
                        proof {
                            crate::fixed::lemma_div_tz_bounds(
                                fx_mul_spec(u.x as int, vrel_delta as int),
                                2,
                            );
                            crate::fixed::lemma_div_tz_bounds(
                                fx_mul_spec(u.y as int, vrel_delta as int),
                                2,
                            );
                        }
                        let u0 = ConstraintUpdate {
                            index: c.index_0,
                            velocity_update: Vec2 { x: v0x - corrx, y: v0y - corry },
                            position_update: Vec2 { x: 0, y: 0 },
                            force_update: Vec2 { x: 0, y: 0 },
                        };
                        let u1 = ConstraintUpdate {
                            index: c.index_1,
                            velocity_update: Vec2 { x: v1x + corrx, y: v1y + corry },
                            position_update: Vec2 { x: 0, y: 0 },
                            force_update: Vec2 { x: 0, y: 0 },
                        };
                        out.push(u0);
                        out.push(u1);
                        proof {
                            assert(out@ =~= pre + spring_updates_spec(c, b0, b1, dt as int));
                        }
                    }
                }
            },
            Constraint::Distance(c) => {
                let s0 = shapes[c.index_0];
                let s1 = shapes[c.index_1];
                if let (Shape::Ball(b0), Shape::Ball(b1)) = (s0, s1) {
                    let delta = b1.position.sub(b0.position);
                    if !(delta.x == 0 && delta.y == 0) {
                        let u = delta.unit();
                        let corr: i64 = delta.norm() - c.distance;
                        let ox: i64 = crate::fixed::div_i64(crate::fixed::fx_mul(u.x, corr), 2);
                        let oy: i64 = crate::fixed::div_i64(crate::fixed::fx_mul(u.y, corr), 2);
                        proof {
                            crate::fixed::lemma_div_tz_bounds(
                                fx_mul_spec(u.x as int, corr as int),
                                2,
                            );
                            crate::fixed::lemma_div_tz_bounds(
                                fx_mul_spec(u.y as int, corr as int),
                                2,
                            );
                            assert(-3_000_000_000 * SCALE <= u.x * corr <= 3_000_000_000 * SCALE
                                && -3_000_000_000 * SCALE <= u.y * corr <= 3_000_000_000
                                * SCALE) by (nonlinear_arith)
                                requires
                                    -1000 <= u.x <= 1000,
                                    -1000 <= u.y <= 1000,
                                    -3_000_000_000 <= corr <= 3_000_000_000,
                                    SCALE == 1000,
                            ;
                            crate::vec2::lemma_div_mag_le(u.x * corr, SCALE as int, 3_000_000_000);
                            crate::vec2::lemma_div_mag_le(u.y * corr, SCALE as int, 3_000_000_000);
                        }
                        let u0 = ConstraintUpdate {
                            index: c.index_0,
                            velocity_update: Vec2 { x: 0, y: 0 },
                            position_update: Vec2 { x: ox, y: oy },
                            force_update: Vec2 { x: 0, y: 0 },
                        };
                        let u1 = ConstraintUpdate {
                            index: c.index_1,
                            velocity_update: Vec2 { x: 0, y: 0 },
                            position_update: Vec2 { x: -ox, y: -oy },
                            force_update: Vec2 { x: 0, y: 0 },
                        };
                        out.push(u0);
                        out.push(u1);
                        proof {
                            assert(out@ =~= pre + distance_updates_spec(c, b0, b1));
                        }
                    }
                }
            },
            Constraint::FixedPoint(c) => {
                let s = shapes[c.index];
                if let Shape::Ball(b) = s {
                    let up = ConstraintUpdate {
                        index: c.index,
                        velocity_update: Vec2 { x: 0, y: 0 },
                        position_update: Vec2 {
                            x: c.position.x - b.position.x,
                            y: c.position.y - b.position.y,
                        },
                        force_update: Vec2 { x: 0, y: 0 },
                    };
                    out.push(up);
                    proof {
                        assert(out@ =~= pre + fixed_point_update_spec(c, b));
                    }
                }
            },
        }
        proof {
            assert(out@ =~= solve_spec(shapes@, constraints@, dt as int, i as int + 1)) by {
                assert(pre == solve_spec(shapes@, constraints@, dt as int, i as int));
            }
        }
        i = i + 1;
    }
    out
}

/// The scene after one buffered update lands: the named ball's position and
/// velocity move by the update's deltas. An index that names no ball, or a
/// result outside the working range, changes nothing (the correction is
/// dropped, never half-applied).
pub open spec fn apply_one_spec(shapes: Seq<Shape>, u: ConstraintUpdate) -> Seq<Shape> {
    if u.index >= shapes.len() {
        shapes
    } else {
        match shapes[u.index as int] {
            Shape::Ball(b) => {
                let px = b.position.x + u.position_update.x;
                let py = b.position.y + u.position_update.y;
                let vx = b.velocity.x + u.velocity_update.x;
                let vy = b.velocity.y + u.velocity_update.y;
                if -W_LIM <= px <= W_LIM && -W_LIM <= py <= W_LIM && -W_LIM <= vx <= W_LIM && -W_LIM
                    <= vy <= W_LIM {
                    shapes.update(
                        u.index as int,
                        Shape::Ball(
                            Ball {
                                position: Vec2 { x: px as i64, y: py as i64 },
                                velocity: Vec2 { x: vx as i64, y: vy as i64 },
                                ..b
                            },
                        ),
                    )
                } else {
                    shapes
                }
            },
            Shape::Line(_) => shapes,
        }
    }
}

/// The scene after the first `n` updates land, in order.
pub open spec fn apply_seq_spec(shapes: Seq<Shape>, us: Seq<ConstraintUpdate>, n: int) -> Seq<
    Shape,
>
    decreases n,
{
    if n <= 0 {
        shapes
    } else {
        apply_one_spec(apply_seq_spec(shapes, us, n - 1), us[n - 1])
    }
}

/// The number of shapes never changes as updates land.
proof fn lemma_apply_seq_len(shapes: Seq<Shape>, us: Seq<ConstraintUpdate>, n: int)
    ensures
        apply_seq_spec(shapes, us, n).len() == shapes.len(),
    decreases
            (if n <= 0 {
                0int
            } else {
                n
            }),
{
    if n > 0 {
        lemma_apply_seq_len(shapes, us, n - 1);
    }
}

/// Land the buffered corrections, in order, each one whole or not at all.
pub fn apply_updates(shapes: &mut Vec<Shape>, updates: &Vec<ConstraintUpdate>)
    requires
        forall|k: int| 0 <= k < old(shapes)@.len() ==> shape_wf(#[trigger] old(shapes)@[k]),
    ensures
        final(shapes)@ == apply_seq_spec(old(shapes)@, updates@, updates@.len() as int),
        final(shapes)@.len() == old(shapes)@.len(),
        forall|k: int| 0 <= k < final(shapes)@.len() ==> shape_wf(#[trigger] final(shapes)@[k]),
{
    let n: usize = updates.len();
    let mut i: usize = 0;
    while i < n
        invariant
            n == updates@.len(),
            i <= n,
            shapes@ == apply_seq_spec(old(shapes)@, updates@, i as int),
            shapes@.len() == old(shapes)@.len(),
            forall|k: int| 0 <= k < shapes@.len() ==> shape_wf(#[trigger] shapes@[k]),
        decreases n - i,
    {
        let u: ConstraintUpdate = updates[i];
        if u.index < shapes.len() {
            let s = shapes[u.index];
            if let Shape::Ball(b) = s {
                let px_ok: bool = -W_LIM - b.position.x <= u.position_update.x
                    && u.position_update.x <= W_LIM - b.position.x;
                let py_ok: bool = -W_LIM - b.position.y <= u.position_update.y
                    && u.position_update.y <= W_LIM - b.position.y;
                let vx_ok: bool = -W_LIM - b.velocity.x <= u.velocity_update.x
                    && u.velocity_update.x <= W_LIM - b.velocity.x;
                let vy_ok: bool = -W_LIM - b.velocity.y <= u.velocity_update.y
                    && u.velocity_update.y <= W_LIM - b.velocity.y;
                if px_ok && py_ok && vx_ok && vy_ok {
                    shapes[u.index] = Shape::Ball(
                        Ball {
                            position: Vec2 {
                                x: b.position.x + u.position_update.x,
                                y: b.position.y + u.position_update.y,
                            },
                            velocity: Vec2 {
                                x: b.velocity.x + u.velocity_update.x,
                                y: b.velocity.y + u.velocity_update.y,
                            },
                            ..b
                        },
                    );
                }
            }
        }
        i = i + 1;
    }
    proof {
        lemma_apply_seq_len(old(shapes)@, updates@, n as int);
    }
}

} // verus!
