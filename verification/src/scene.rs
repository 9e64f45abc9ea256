//! The per-frame collision passes over the whole scene: an O(n^2)
//! narrow-phase scan over every unordered shape pair, producing transient
//! collision records, and an apply pass that lands them afterwards. The
//! scan reads a snapshot and writes nothing; the records are consumed in
//! order and discarded.

use crate::fixed::{div_tz, fx_div_spec, fx_mul_spec, fx_mul_wide, SCALE};
use crate::nbody::DT_LIM;
use crate::physics::{
    collision_delta_spec, collision_position_delta, elastic_collision_velocity,
    elastic_velocity_spec, wall_collision_velocity, wall_velocity_spec, Collision,
};
use crate::shapes::{
    ball_line_collision, ball_line_hit_spec, ball_ball_collision, ball_wf, balls_colliding_spec,
    line_wf, point_line_distance, point_line_distance_spec, shape_wf, Ball, Line, Shape, W_LIM,
};
use crate::vec2::{in_lim, norm_spec, Vec2, VEC_LIM};
use vstd::prelude::*;

verus! {

/// What resolving a colliding ball pair yields: the separating translations
/// split by the opposite masses, and the per-axis exchanged velocities
/// scaled by the shared restitution. A non-colliding or concentric pair
/// resolves to nothing.
pub open spec fn ball_ball_response_spec(b1: Ball, b2: Ball) -> Option<(Collision, Collision)> {
    if !balls_colliding_spec(b1, b2) {
        None
    } else {
        let dx = b2.position.x - b1.position.x;
        let dy = b2.position.y - b1.position.y;
        if dx == 0 && dy == 0 {
            None
        } else {
            let d = Vec2 { x: dx as i64, y: dy as i64 };
            let c_r = if b1.elasticity <= b2.elasticity {
                b1.elasticity
            } else {
                b2.elasticity
            };
            let depth = b1.radius + b2.radius - norm_spec(d);
            let t = collision_delta_spec(d, depth);
            let msum = b1.mass + b2.mass;
            let ra = fx_div_spec(b2.mass as int, msum);
            let rb = fx_div_spec(b1.mass as int, msum);
            let ta = Vec2 {
                x: (-fx_mul_spec(t.x as int, ra)) as i64,
                y: (-fx_mul_spec(t.y as int, ra)) as i64,
            };
            let tb = Vec2 {
                x: fx_mul_spec(t.x as int, rb) as i64,
                y: fx_mul_spec(t.y as int, rb) as i64,
            };
            let vs = elastic_velocity_spec(b1, b2);
            let vfa = Vec2 {
                x: fx_mul_spec(c_r as int, vs.0.x as int) as i64,
                y: fx_mul_spec(c_r as int, vs.0.y as int) as i64,
            };
            let vfb = Vec2 {
                x: fx_mul_spec(c_r as int, vs.1.x as int) as i64,
                y: fx_mul_spec(c_r as int, vs.1.y as int) as i64,
            };
            Some(
                (Collision { translate_by: ta, vf: vfa }, Collision { translate_by: tb, vf: vfb }),
            )
        }
    }
}

/// Resolve a ball pair: positional correction split in proportion to the
/// opposite masses, velocity exchange by the per-axis inelastic formula.
pub fn resolve_ball_ball(b1: &Ball, b2: &Ball) -> (r: Option<(Collision, Collision)>)
    requires
        ball_wf(*b1),
        ball_wf(*b2),
    ensures
        r == ball_ball_response_spec(*b1, *b2),
        r matches Some(cs) ==> in_lim(cs.0.translate_by, 2 * W_LIM as int) && in_lim(
            cs.1.translate_by,
            2 * W_LIM as int,
        ) && in_lim(cs.0.vf, 3 * W_LIM as int) && in_lim(cs.1.vf, 3 * W_LIM as int),
{
    if !ball_ball_collision(b1, b2) {
        return None;
    }
    let d = b2.position.sub(b1.position);
    if d.x == 0 && d.y == 0 {
        return None;
    }
    let c_r: i64 = if b1.elasticity <= b2.elasticity {
        b1.elasticity
    } else {
        b2.elasticity
    };
    let dist: i64 = d.norm();
    let depth: i64 = b1.radius + b2.radius - dist;
    let t = collision_position_delta(d, depth);
    proof {
        assert(depth >= 0) by (nonlinear_arith)
            requires
                crate::vec2::is_isqrt(crate::vec2::norm_sq_spec(d), dist as int),
                crate::vec2::norm_sq_spec(d) == d.x * d.x + d.y * d.y,
                d.x * d.x + d.y * d.y < (b1.radius + b2.radius) * (b1.radius + b2.radius),
                0 <= b1.radius + b2.radius,
                depth == b1.radius + b2.radius - dist,
        ;
    }
    let msum: i64 = b1.mass + b2.mass;
    let ra: i64 = crate::fixed::fx_div(b2.mass, msum);
    let rb: i64 = crate::fixed::fx_div(b1.mass, msum);
    proof {
        assert(0 <= b2.mass * SCALE <= SCALE * msum && 0 <= b1.mass * SCALE <= SCALE
            * msum) by (nonlinear_arith)
            requires
                1 <= b1.mass,
                1 <= b2.mass,
                msum == b1.mass + b2.mass,
                SCALE == 1000,
        ;
        crate::vec2::lemma_div_mag_le(b2.mass * SCALE, msum as int, SCALE as int);
        crate::vec2::lemma_div_mag_le(b1.mass * SCALE, msum as int, SCALE as int);
        crate::fixed::lemma_div_tz_bounds(b2.mass * SCALE, msum as int);
        crate::fixed::lemma_div_tz_bounds(b1.mass * SCALE, msum as int);
        assert(-1_000_000_000_000 <= t.x * ra <= 1_000_000_000_000 && -1_000_000_000_000 <= t.y
            * ra <= 1_000_000_000_000 && -1_000_000_000_000 <= t.x * rb <= 1_000_000_000_000
            && -1_000_000_000_000 <= t.y * rb <= 1_000_000_000_000) by (nonlinear_arith)
            requires
                -1_000_000_000 <= t.x <= 1_000_000_000,
                -1_000_000_000 <= t.y <= 1_000_000_000,
                0 <= ra <= 1000,
                0 <= rb <= 1000,
        ;
        crate::vec2::lemma_div_mag_le(t.x * ra, SCALE as int, 1_000_000_000);
        crate::vec2::lemma_div_mag_le(t.y * ra, SCALE as int, 1_000_000_000);
        crate::vec2::lemma_div_mag_le(t.x * rb, SCALE as int, 1_000_000_000);
        crate::vec2::lemma_div_mag_le(t.y * rb, SCALE as int, 1_000_000_000);
    }
    let tax: i64 = fx_mul_wide(t.x, ra);
    let tay: i64 = fx_mul_wide(t.y, ra);
    let tbx: i64 = fx_mul_wide(t.x, rb);
    let tby: i64 = fx_mul_wide(t.y, rb);
    let (va, vb) = elastic_collision_velocity(b1, b2);
    proof {
        assert(-1_500_000_000_000 <= c_r * va.x <= 1_500_000_000_000 && -1_500_000_000_000 <= c_r
            * va.y <= 1_500_000_000_000 && -1_500_000_000_000 <= c_r * vb.x <= 1_500_000_000_000
            && -1_500_000_000_000 <= c_r * vb.y <= 1_500_000_000_000) by (nonlinear_arith)
            requires
                0 <= c_r <= 1000,
                -1_500_000_000 <= va.x <= 1_500_000_000,
                -1_500_000_000 <= va.y <= 1_500_000_000,
                -1_500_000_000 <= vb.x <= 1_500_000_000,
                -1_500_000_000 <= vb.y <= 1_500_000_000,
        ;
        crate::vec2::lemma_div_mag_le(c_r * va.x, SCALE as int, 1_500_000_000);
        crate::vec2::lemma_div_mag_le(c_r * va.y, SCALE as int, 1_500_000_000);
        crate::vec2::lemma_div_mag_le(c_r * vb.x, SCALE as int, 1_500_000_000);
        crate::vec2::lemma_div_mag_le(c_r * vb.y, SCALE as int, 1_500_000_000);
    }
    let vfa = Vec2 { x: fx_mul_wide(c_r, va.x), y: fx_mul_wide(c_r, va.y) };
    let vfb = Vec2 { x: fx_mul_wide(c_r, vb.x), y: fx_mul_wide(c_r, vb.y) };
    Some(
        (
            Collision { translate_by: Vec2 { x: -tax, y: -tay }, vf: vfa },
            Collision { translate_by: Vec2 { x: tbx, y: tby }, vf: vfb },
        ),
    )
}

/// What resolving a ball against a segment yields: the surface normal
/// oriented away from the ball (flipped when the raw dot with the
/// start-to-ball vector says it points the wrong way), the ball pushed back
/// out along it by the penetration of the segment's distance line, and the
/// wall-reflected velocity. Without a crossing, or without positive
/// penetration, nothing.
pub open spec fn ball_line_response_spec(ball: Ball, line: Line, dt: int) -> Option<Collision> {
    if !ball_line_hit_spec(ball, line) {
        None
    } else {
        let nx = 2 * (line.end_point.y - line.start_point.y);
        let ny = -2 * (line.end_point.x - line.start_point.x);
        let btlx = line.start_point.x - ball.position.x;
        let btly = line.start_point.y - ball.position.y;
        let flip = btlx * nx + btly * ny < 0;
        let n = if flip {
            Vec2 { x: (-nx) as i64, y: (-ny) as i64 }
        } else {
            Vec2 { x: nx as i64, y: ny as i64 }
        };
        let c_r = if ball.elasticity <= line.elasticity {
            ball.elasticity
        } else {
            line.elasticity
        };
        let fric = if ball.friction <= line.friction {
            ball.friction
        } else {
            line.friction
        };
        let depth = ball.radius - point_line_distance_spec(line, ball.position);
        if depth > 0 {
            let t = collision_delta_spec(n, depth);
            Some(
                Collision {
                    translate_by: Vec2 { x: (-t.x) as i64, y: (-t.y) as i64 },
                    vf: wall_velocity_spec(n, c_r as int, fric as int, dt, ball.velocity),
                },
            )
        } else {
            None
        }
    }
}

/// Resolve a ball against a static segment: push the ball out along the
/// oriented normal and reflect its velocity with restitution and friction.
pub fn resolve_ball_line(ball: &Ball, line: &Line, dt: i64) -> (r: Option<Collision>)
    requires
        ball_wf(*ball),
        line_wf(*line),
        1 <= dt <= DT_LIM,
    ensures
        r == ball_line_response_spec(*ball, *line, dt as int),
        r matches Some(c) ==> in_lim(c.translate_by, 2 * W_LIM as int) && in_lim(
            c.vf,
            2 * VEC_LIM as int,
        ),
{
    if !ball_line_collision(ball, line) {
        return None;
    }
    let nx: i64 = 2 * (line.end_point.y - line.start_point.y);
    let ny: i64 = -2 * (line.end_point.x - line.start_point.x);
    let btlx: i64 = line.start_point.x - ball.position.x;
    let btly: i64 = line.start_point.y - ball.position.y;
    proof {
        assert(-4_000_000_000_000_000_000 <= btlx * nx <= 4_000_000_000_000_000_000
            && -4_000_000_000_000_000_000 <= btly * ny
            <= 4_000_000_000_000_000_000) by (nonlinear_arith)
            requires
                -1_000_000_000 <= btlx <= 1_000_000_000,
                -1_000_000_000 <= btly <= 1_000_000_000,
                -2_000_000_000 <= nx <= 2_000_000_000,
                -2_000_000_000 <= ny <= 2_000_000_000,
        ;
    }
    let dot: i64 = btlx.checked_mul(nx).unwrap().checked_add(btly.checked_mul(ny).unwrap()).unwrap();
    let n: Vec2 = if dot < 0 {
        Vec2 { x: -nx, y: -ny }
    } else {
        Vec2 { x: nx, y: ny }
    };
    let c_r: i64 = if ball.elasticity <= line.elasticity {
        ball.elasticity
    } else {
        line.elasticity
    };
    let fric: i64 = if ball.friction <= line.friction {
        ball.friction
    } else {
        line.friction
    };
    let depth: i64 = ball.radius - point_line_distance(line, &ball.position);
    if depth > 0 {
        let t = collision_position_delta(n, depth);
        proof {
            assert(0 <= fric * dt <= 5_000_000_000_000) by (nonlinear_arith)
                requires
                    0 <= fric <= 500_000_000,
                    1 <= dt <= 10_000,
            ;
        }
        let vf = wall_collision_velocity(n, c_r, fric, dt, ball);
        Some(Collision { translate_by: Vec2 { x: -t.x, y: -t.y }, vf })
    } else {
        None
    }
}

/// What one shape pair adds to the collision list: two records for a
/// resolved ball pair, one for a ball against a segment (in either order),
/// nothing for two segments (segment-segment detection is the documented
/// stub).
pub open spec fn pair_records_spec(shapes: Seq<Shape>, i: int, j: int, dt: int) -> Seq<
    (usize, Collision),
> {
    match (shapes[i], shapes[j]) {
        (Shape::Ball(b1), Shape::Ball(b2)) => {
            match ball_ball_response_spec(b1, b2) {
                Some(cs) => seq![(i as usize, cs.0), (j as usize, cs.1)],
                None => Seq::empty(),
            }
        },
        (Shape::Ball(b), Shape::Line(l)) => {
            match ball_line_response_spec(b, l, dt) {
                Some(c) => seq![(i as usize, c)],
                None => Seq::empty(),
            }
        },
        (Shape::Line(l), Shape::Ball(b)) => {
            match ball_line_response_spec(b, l, dt) {
                Some(c) => seq![(j as usize, c)],
                None => Seq::empty(),
            }
        },
        (Shape::Line(_), Shape::Line(_)) => Seq::empty(),
    }
}

/// The records of row `i`, over partners `i < j < j_end`.
pub open spec fn row_scan_spec(shapes: Seq<Shape>, dt: int, i: int, j_end: int) -> Seq<
    (usize, Collision),
>
    decreases j_end,
{
    if j_end <= 0 {
        Seq::empty()
    } else if j_end - 1 <= i {
        row_scan_spec(shapes, dt, i, j_end - 1)
    } else {
        row_scan_spec(shapes, dt, i, j_end - 1) + pair_records_spec(shapes, i, j_end - 1, dt)
    }
}

/// The records of all rows below `i_end`, in scan order.
pub open spec fn scan_spec(shapes: Seq<Shape>, dt: int, i_end: int) -> Seq<(usize, Collision)>
    decreases i_end,
{
    if i_end <= 0 {
        Seq::empty()
    } else {
        scan_spec(shapes, dt, i_end - 1) + row_scan_spec(
            shapes,
            dt,
            i_end - 1,
            shapes.len() as int,
        )
    }
}

/// A row holds nothing up to and including its own index.
proof fn lemma_row_scan_zero(shapes: Seq<Shape>, dt: int, i: int, j_end: int)
    requires
        j_end <= i + 1,
    ensures
        row_scan_spec(shapes, dt, i, j_end) == Seq::<(usize, Collision)>::empty(),
    decreases
            (if j_end <= 0 {
                0int
            } else {
                j_end
            }),
{
    if j_end > 0 {
        lemma_row_scan_zero(shapes, dt, i, j_end - 1);
    }
}

/// One narrow-phase pass over every unordered shape pair, reading a
/// snapshot of the scene and collecting the responses in scan order.
pub fn detect_collisions(shapes: &Vec<Shape>, dt: i64) -> (r: Vec<(usize, Collision)>)
    requires
        forall|k: int| 0 <= k < shapes@.len() ==> shape_wf(#[trigger] shapes@[k]),
        1 <= dt <= DT_LIM,
    ensures
        r@ == scan_spec(shapes@, dt as int, shapes@.len() as int),
        forall|k: int| 0 <= k < r@.len() ==> (#[trigger] r@[k]).0 < shapes@.len(),
{
    let n: usize = shapes.len();
    let mut out: Vec<(usize, Collision)> = Vec::new();
    let mut i: usize = 0;
    while i < n
        invariant
            n == shapes@.len(),
            i <= n,
            forall|k: int| 0 <= k < shapes@.len() ==> shape_wf(#[trigger] shapes@[k]),
            1 <= dt <= DT_LIM,
            out@ == scan_spec(shapes@, dt as int, i as int),
            forall|k: int| 0 <= k < out@.len() ==> (#[trigger] out@[k]).0 < shapes@.len(),
        decreases n - i,
    {
        let mut j: usize = i + 1;
        proof {
            lemma_row_scan_zero(shapes@, dt as int, i as int, (i + 1) as int);
        }
        while j < n
            invariant
                n == shapes@.len(),
                i < n,
                i + 1 <= j <= n,
                forall|k: int| 0 <= k < shapes@.len() ==> shape_wf(#[trigger] shapes@[k]),
                1 <= dt <= DT_LIM,
                out@ == scan_spec(shapes@, dt as int, i as int) + row_scan_spec(
                    shapes@,
                    dt as int,
                    i as int,
                    j as int,
                ),
                forall|k: int| 0 <= k < out@.len() ==> (#[trigger] out@[k]).0 < shapes@.len(),
            decreases n - j,
        {
            let ghost pre = out@;
            match (shapes[i], shapes[j]) {
                (Shape::Ball(b1), Shape::Ball(b2)) => {
                    if let Some((c1, c2)) = resolve_ball_ball(&b1, &b2) {
                        out.push((i, c1));
                        out.push((j, c2));
                    }
                },
                (Shape::Ball(b), Shape::Line(l)) => {
                    if let Some(c) = resolve_ball_line(&b, &l, dt) {
                        out.push((i, c));
                    }
                },
                (Shape::Line(l), Shape::Ball(b)) => {
                    if let Some(c) = resolve_ball_line(&b, &l, dt) {
                        out.push((j, c));
                    }
                },
                (Shape::Line(_), Shape::Line(_)) => {},
            }
            proof {
                assert(out@ =~= pre + pair_records_spec(shapes@, i as int, j as int, dt as int));
                assert(out@ =~= scan_spec(shapes@, dt as int, i as int) + row_scan_spec(
                    shapes@,
                    dt as int,
                    i as int,
                    j as int + 1,
                ));
            }
            j = j + 1;
        }
        proof {
            assert(out@ =~= scan_spec(shapes@, dt as int, i as int + 1));
        }
        i = i + 1;
    }
    out
}

/// Collision separation, direction: the two translations of a resolved
/// ball pair never move the bodies toward each other — their difference
/// has a non-negative dot product with the separation vector, so the
/// response pushes the pair apart along the collision axis.
pub proof fn lemma_separation_never_decreases(b1: Ball, b2: Ball)
    requires
        ball_wf(b1),
        ball_wf(b2),
    ensures
        ball_ball_response_spec(b1, b2) matches Some(cs) ==> (b2.position.x - b1.position.x) * (
        cs.1.translate_by.x - cs.0.translate_by.x) + (b2.position.y - b1.position.y) * (
        cs.1.translate_by.y - cs.0.translate_by.y) >= 0,
{
    if ball_ball_response_spec(b1, b2) is Some {
        let sx = b2.position.x - b1.position.x;
        let sy = b2.position.y - b1.position.y;
        let d = Vec2 { x: sx as i64, y: sy as i64 };
        assert(d.x == sx && d.y == sy);
        assert(crate::vec2::norm_sq_spec(d) >= 1) by (nonlinear_arith)
            requires
                crate::vec2::norm_sq_spec(d) == sx * sx + sy * sy,
                !(sx == 0 && sy == 0),
        ;
        let dist = norm_spec(d);
        crate::vec2::lemma_isqrt_exists(crate::vec2::norm_sq_spec(d));
        assert(dist >= 0 && crate::vec2::is_isqrt(crate::vec2::norm_sq_spec(d), dist));
        assert(dist >= 1) by (nonlinear_arith)
            requires
                crate::vec2::is_isqrt(sx * sx + sy * sy, dist),
                sx * sx + sy * sy >= 1,
        ;
        assert(dist < b1.radius + b2.radius && dist >= sx && dist >= -sx && dist >= sy && dist
            >= -sy) by (nonlinear_arith)
            requires
                crate::vec2::is_isqrt(sx * sx + sy * sy, dist),
                sx * sx + sy * sy < (b1.radius + b2.radius) * (b1.radius + b2.radius),
                0 <= b1.radius + b2.radius,
                dist >= 0,
        ;
        let depth = b1.radius + b2.radius - dist;
        assert(depth >= 0);
        let u = crate::vec2::unit_spec(d);
        crate::fixed::lemma_div_tz_bounds(sx * SCALE, dist);
        crate::fixed::lemma_div_tz_bounds(sy * SCALE, dist);
        assert((sx >= 0 ==> sx * SCALE >= 0) && (sx < 0 ==> sx * SCALE < 0) && (sy >= 0 ==> sy
            * SCALE >= 0) && (sy < 0 ==> sy * SCALE < 0) && -SCALE * dist <= sx * SCALE <= SCALE
            * dist && -SCALE * dist <= sy * SCALE <= SCALE * dist) by (nonlinear_arith)
            requires
                dist >= sx && dist >= -sx && dist >= sy && dist >= -sy,
                SCALE == 1000,
        ;
        crate::vec2::lemma_div_mag_le(sx * SCALE, dist, SCALE as int);
        crate::vec2::lemma_div_mag_le(sy * SCALE, dist, SCALE as int);
        let t = collision_delta_spec(d, depth);
        crate::fixed::lemma_div_tz_bounds(u.x * depth, SCALE as int);
        crate::fixed::lemma_div_tz_bounds(u.y * depth, SCALE as int);
        assert(-SCALE * depth <= u.x * depth <= SCALE * depth && -SCALE * depth <= u.y * depth
            <= SCALE * depth) by (nonlinear_arith)
            requires
                -SCALE <= u.x <= SCALE,
                -SCALE <= u.y <= SCALE,
                depth >= 0,
                SCALE == 1000,
        ;
        crate::vec2::lemma_div_mag_le(u.x * depth, SCALE as int, depth);
        crate::vec2::lemma_div_mag_le(u.y * depth, SCALE as int, depth);
        assert(u.x >= 0 ==> u.x * depth >= 0) by (nonlinear_arith)
            requires
                depth >= 0,
        ;
        assert(u.x < 0 ==> u.x * depth <= 0) by (nonlinear_arith)
            requires
                depth >= 0,
        ;
        assert(u.y >= 0 ==> u.y * depth >= 0) by (nonlinear_arith)
            requires
                depth >= 0,
        ;
        assert(u.y < 0 ==> u.y * depth <= 0) by (nonlinear_arith)
            requires
                depth >= 0,
        ;
        let msum = b1.mass + b2.mass;
        let ra = fx_div_spec(b2.mass as int, msum);
        let rb = fx_div_spec(b1.mass as int, msum);
        crate::fixed::lemma_div_tz_bounds(b2.mass * SCALE, msum);
        crate::fixed::lemma_div_tz_bounds(b1.mass * SCALE, msum);
        assert(b2.mass * SCALE >= 0 && b1.mass * SCALE >= 0 && 0 <= b2.mass * SCALE <= SCALE * msum
            && 0 <= b1.mass * SCALE <= SCALE * msum) by (nonlinear_arith)
            requires
                b1.mass >= 1,
                b2.mass >= 1,
                msum == b1.mass + b2.mass,
                SCALE == 1000,
        ;
        crate::vec2::lemma_div_mag_le(b2.mass * SCALE, msum, SCALE as int);
        crate::vec2::lemma_div_mag_le(b1.mass * SCALE, msum, SCALE as int);
        assert(-(depth * SCALE) <= t.x * ra <= depth * SCALE && -(depth * SCALE) <= t.y * ra
            <= depth * SCALE && -(depth * SCALE) <= t.x * rb <= depth * SCALE && -(depth * SCALE)
            <= t.y * rb <= depth * SCALE) by (nonlinear_arith)
            requires
                -depth <= t.x <= depth,
                -depth <= t.y <= depth,
                0 <= ra <= SCALE,
                0 <= rb <= SCALE,
                depth >= 0,
                SCALE == 1000,
        ;
        crate::vec2::lemma_div_mag_le(t.x * ra, SCALE as int, depth);
        crate::vec2::lemma_div_mag_le(t.y * ra, SCALE as int, depth);
        crate::vec2::lemma_div_mag_le(t.x * rb, SCALE as int, depth);
        crate::vec2::lemma_div_mag_le(t.y * rb, SCALE as int, depth);
        crate::fixed::lemma_div_tz_bounds(t.x * ra, SCALE as int);
        crate::fixed::lemma_div_tz_bounds(t.y * ra, SCALE as int);
        crate::fixed::lemma_div_tz_bounds(t.x * rb, SCALE as int);
        crate::fixed::lemma_div_tz_bounds(t.y * rb, SCALE as int);
        assert(t.x >= 0 ==> t.x * ra >= 0 && t.x * rb >= 0) by (nonlinear_arith)
            requires
                ra >= 0,
                rb >= 0,
        ;
        assert(t.x < 0 ==> t.x * ra <= 0 && t.x * rb <= 0) by (nonlinear_arith)
            requires
                ra >= 0,
                rb >= 0,
        ;
        assert(t.y >= 0 ==> t.y * ra >= 0 && t.y * rb >= 0) by (nonlinear_arith)
            requires
                ra >= 0,
                rb >= 0,
        ;
        assert(t.y < 0 ==> t.y * ra <= 0 && t.y * rb <= 0) by (nonlinear_arith)
            requires
                ra >= 0,
                rb >= 0,
        ;
        assert(t.x == 0 ==> t.x * ra == 0 && t.x * rb == 0) by (nonlinear_arith);
        assert(t.y == 0 ==> t.y * ra == 0 && t.y * rb == 0) by (nonlinear_arith);
        assert(div_tz(0, SCALE as int) == 0);
        assert(u.x == 0 ==> u.x * depth == 0) by (nonlinear_arith);
        assert(u.y == 0 ==> u.y * depth == 0) by (nonlinear_arith);
        let cs = ball_ball_response_spec(b1, b2)->Some_0;
        let qax = fx_mul_spec(t.x as int, ra);
        let qay = fx_mul_spec(t.y as int, ra);
        let qbx = fx_mul_spec(t.x as int, rb);
        let qby = fx_mul_spec(t.y as int, rb);
        assert(-depth <= qax <= depth && -depth <= qay <= depth && -depth <= qbx <= depth && -depth
            <= qby <= depth);
        assert(cs.0.translate_by.x == -qax && cs.0.translate_by.y == -qay && cs.1.translate_by.x
            == qbx && cs.1.translate_by.y == qby);
        let gx = cs.1.translate_by.x - cs.0.translate_by.x;
        let gy = cs.1.translate_by.y - cs.0.translate_by.y;
        assert(gx == qbx + qax && gy == qby + qay);
        assert(sx >= 0 ==> gx >= 0);
        assert(sx < 0 ==> gx <= 0);
        assert(sy >= 0 ==> gy >= 0);
        assert(sy < 0 ==> gy <= 0);
        assert(sx * gx >= 0 && sy * gy >= 0) by (nonlinear_arith)
            requires
                sx >= 0 ==> gx >= 0,
                sx < 0 ==> gx <= 0,
                sy >= 0 ==> gy >= 0,
                sy < 0 ==> gy <= 0,
        ;
    }
}

/// Collision separation, magnitude, for a pair aligned with the horizontal
/// axis: after the translations are applied, the centers stand at least
/// `radius_1 + radius_2 - epsilon` apart, where `epsilon` is the
/// penetration depth divided by `SCALE`, plus two fixed-point units of
/// rounding.
pub proof fn lemma_collision_separation_axis(b1: Ball, b2: Ball)
    requires
        ball_wf(b1),
        ball_wf(b2),
        b2.position.y == b1.position.y,
        b2.position.x > b1.position.x,
        balls_colliding_spec(b1, b2),
    ensures
        ball_ball_response_spec(b1, b2) is Some,
        ball_ball_response_spec(b1, b2) matches Some(cs) ==> {
            let depth = b1.radius + b2.radius - (b2.position.x - b1.position.x);
            (b2.position.x + cs.1.translate_by.x) - (b1.position.x + cs.0.translate_by.x)
                >= b1.radius + b2.radius - (div_tz(depth, SCALE as int) + 2)
        },
{
    let sx = b2.position.x - b1.position.x;
    let d = Vec2 { x: sx as i64, y: 0 };
    assert(crate::vec2::is_isqrt(sx * sx + 0 * 0, sx)) by (nonlinear_arith)
        requires
            sx > 0,
    ;
    crate::vec2::lemma_isqrt_witness(crate::vec2::norm_sq_spec(d), sx);
    let dist = norm_spec(d);
    assert(dist == sx);
    assert(sx < b1.radius + b2.radius) by (nonlinear_arith)
        requires
            sx * sx + 0 * 0 < (b1.radius + b2.radius) * (b1.radius + b2.radius),
            sx > 0,
            0 <= b1.radius + b2.radius,
    ;
    let depth = b1.radius + b2.radius - sx;
    let u = crate::vec2::unit_spec(d);
    vstd::arithmetic::div_mod::lemma_div_multiples_vanish(SCALE as int, sx);
    assert(sx * SCALE == SCALE * sx) by (nonlinear_arith);
    assert(u.x == SCALE);
    vstd::arithmetic::div_mod::lemma_div_of0(sx);
    assert(u.y == 0);
    let t = collision_delta_spec(d, depth);
    vstd::arithmetic::div_mod::lemma_div_multiples_vanish(depth, SCALE as int);
    assert((SCALE as int) * depth == depth * SCALE) by (nonlinear_arith);
    assert(t.x == depth);
    assert(fx_mul_spec(0, depth) == 0) by {
        crate::fixed::lemma_div_tz_bounds(0 * depth, SCALE as int);
        assert(0 * depth == 0) by (nonlinear_arith);
    }
    assert(t.y == 0);
    let msum = b1.mass + b2.mass;
    let ra = fx_div_spec(b2.mass as int, msum);
    let rb = fx_div_spec(b1.mass as int, msum);
    // The two mass shares lose less than one unit each to truncation.
    vstd::arithmetic::div_mod::lemma_fundamental_div_mod(b2.mass * SCALE, msum);
    vstd::arithmetic::div_mod::lemma_mod_division_less_than_divisor(b2.mass * SCALE, msum);
    vstd::arithmetic::div_mod::lemma_fundamental_div_mod(b1.mass * SCALE, msum);
    vstd::arithmetic::div_mod::lemma_mod_division_less_than_divisor(b1.mass * SCALE, msum);
    crate::fixed::lemma_div_tz_bounds(b2.mass * SCALE, msum);
    crate::fixed::lemma_div_tz_bounds(b1.mass * SCALE, msum);
    assert(b2.mass * SCALE >= 0 && b1.mass * SCALE >= 0 && b2.mass * SCALE + b1.mass * SCALE
        == SCALE * msum) by (nonlinear_arith)
        requires
            b1.mass >= 1,
            b2.mass >= 1,
            msum == b1.mass + b2.mass,
            SCALE == 1000,
    ;
    assert(0 <= b2.mass * SCALE <= SCALE * msum && 0 <= b1.mass * SCALE <= SCALE
        * msum) by (nonlinear_arith)
        requires
            b1.mass >= 1,
            b2.mass >= 1,
            msum == b1.mass + b2.mass,
            SCALE == 1000,
    ;
    crate::vec2::lemma_div_mag_le(b2.mass * SCALE, msum, SCALE as int);
    crate::vec2::lemma_div_mag_le(b1.mass * SCALE, msum, SCALE as int);
    assert((ra + rb) * msum > SCALE * msum - 2 * msum) by (nonlinear_arith)
        requires
            msum * ra == b2.mass * SCALE - (b2.mass * SCALE) % msum,
            msum * rb == b1.mass * SCALE - (b1.mass * SCALE) % msum,
            0 <= (b2.mass * SCALE) % msum < msum,
            0 <= (b1.mass * SCALE) % msum < msum,
            b2.mass * SCALE + b1.mass * SCALE == SCALE * msum,
            msum >= 2,
    ;
    assert(ra + rb >= SCALE - 1) by (nonlinear_arith)
        requires
            (ra + rb) * msum > SCALE * msum - 2 * msum,
            msum >= 2,
    ;
    // Each applied translation loses less than one unit to truncation.
    let qa = fx_mul_spec(depth, ra);
    let qb = fx_mul_spec(depth, rb);
    vstd::arithmetic::div_mod::lemma_fundamental_div_mod(depth * ra, SCALE as int);
    vstd::arithmetic::div_mod::lemma_mod_division_less_than_divisor(depth * ra, SCALE as int);
    vstd::arithmetic::div_mod::lemma_fundamental_div_mod(depth * rb, SCALE as int);
    vstd::arithmetic::div_mod::lemma_mod_division_less_than_divisor(depth * rb, SCALE as int);
    crate::fixed::lemma_div_tz_bounds(depth * ra, SCALE as int);
    crate::fixed::lemma_div_tz_bounds(depth * rb, SCALE as int);
    assert(depth * ra >= 0 && depth * rb >= 0) by (nonlinear_arith)
        requires
            depth >= 1,
            ra >= 0,
            rb >= 0,
    ;
    let q = div_tz(depth, SCALE as int);
    vstd::arithmetic::div_mod::lemma_fundamental_div_mod(depth, SCALE as int);
    vstd::arithmetic::div_mod::lemma_mod_division_less_than_divisor(depth, SCALE as int);
    assert(qa + qb >= depth - q - 2) by (nonlinear_arith)
        requires
            (SCALE as int) * qa == depth * ra - (depth * ra) % (SCALE as int),
            (SCALE as int) * qb == depth * rb - (depth * rb) % (SCALE as int),
            0 <= (depth * ra) % (SCALE as int) < SCALE,
            0 <= (depth * rb) % (SCALE as int) < SCALE,
            ra + rb >= SCALE - 1,
            ra <= SCALE,
            rb <= SCALE,
            depth == (SCALE as int) * q + depth % (SCALE as int),
            0 <= depth % (SCALE as int) < SCALE,
            depth >= 1,
            q >= 0,
            SCALE == 1000,
    ;
    assert(0 <= depth * ra <= 1_000_000_000_000 && 0 <= depth * rb
        <= 1_000_000_000_000) by (nonlinear_arith)
        requires
            1 <= depth <= 1_000_000_000,
            0 <= ra <= 1000,
            0 <= rb <= 1000,
    ;
    let cs = ball_ball_response_spec(b1, b2)->Some_0;
    assert(cs.1.translate_by.x == qb && cs.0.translate_by.x == -qa);
}

/// The scene after one collision record lands: the named ball is pushed by
/// the record's translation and leaves with the record's velocity. An index
/// that names no ball, or a result outside the working range, changes
/// nothing.
pub open spec fn apply_collision_spec(shapes: Seq<Shape>, rec: (usize, Collision)) -> Seq<Shape> {
    if rec.0 >= shapes.len() {
        shapes
    } else {
        match shapes[rec.0 as int] {
            Shape::Ball(b) => {
                let px = b.position.x + rec.1.translate_by.x;
                let py = b.position.y + rec.1.translate_by.y;
                let vx = rec.1.vf.x;
                let vy = rec.1.vf.y;
                if -W_LIM <= px <= W_LIM && -W_LIM <= py <= W_LIM && -W_LIM <= vx <= W_LIM && -W_LIM
                    <= vy <= W_LIM {
                    shapes.update(
                        rec.0 as int,
                        Shape::Ball(
                            Ball {
                                position: Vec2 { x: px as i64, y: py as i64 },
                                velocity: Vec2 { x: vx, y: vy },
                                ..b
                            },
                        ),
                    )
                } else {
                    shapes
                }
            },
            Shape::Line(_) => shapes,
        }
    }
}

/// The scene after the first `n` records land, in order.
pub open spec fn apply_collisions_spec(
    shapes: Seq<Shape>,
    recs: Seq<(usize, Collision)>,
    n: int,
) -> Seq<Shape>
    decreases n,
{
    if n <= 0 {
        shapes
    } else {
        apply_collision_spec(apply_collisions_spec(shapes, recs, n - 1), recs[n - 1])
    }
}

/// The number of shapes never changes as records land.
proof fn lemma_apply_collisions_len(shapes: Seq<Shape>, recs: Seq<(usize, Collision)>, n: int)
    ensures
        apply_collisions_spec(shapes, recs, n).len() == shapes.len(),
    decreases
            (if n <= 0 {
                0int
            } else {
                n
            }),
{
    if n > 0 {
        lemma_apply_collisions_len(shapes, recs, n - 1);
    }
}

/// Land the collision records, in order, each one whole or not at all.
pub fn apply_collisions(shapes: &mut Vec<Shape>, collisions: &Vec<(usize, Collision)>)
    requires
        forall|k: int| 0 <= k < old(shapes)@.len() ==> shape_wf(#[trigger] old(shapes)@[k]),
    ensures
        final(shapes)@ == apply_collisions_spec(
            old(shapes)@,
            collisions@,
            collisions@.len() as int,
        ),
        final(shapes)@.len() == old(shapes)@.len(),
        forall|k: int| 0 <= k < final(shapes)@.len() ==> shape_wf(#[trigger] final(shapes)@[k]),
{
    let n: usize = collisions.len();
    let mut i: usize = 0;
    while i < n
        invariant
            n == collisions@.len(),
            i <= n,
            shapes@ == apply_collisions_spec(old(shapes)@, collisions@, i as int),
            shapes@.len() == old(shapes)@.len(),
            forall|k: int| 0 <= k < shapes@.len() ==> shape_wf(#[trigger] shapes@[k]),
        decreases n - i,
    {
        let rec: (usize, Collision) = collisions[i];
        if rec.0 < shapes.len() {
            let s = shapes[rec.0];
            if let Shape::Ball(b) = s {
                let px_ok: bool = -W_LIM - b.position.x <= rec.1.translate_by.x
                    && rec.1.translate_by.x <= W_LIM - b.position.x;
                let py_ok: bool = -W_LIM - b.position.y <= rec.1.translate_by.y
                    && rec.1.translate_by.y <= W_LIM - b.position.y;
                let v_ok: bool = -W_LIM <= rec.1.vf.x && rec.1.vf.x <= W_LIM && -W_LIM
                    <= rec.1.vf.y && rec.1.vf.y <= W_LIM;
                if px_ok && py_ok && v_ok {
                    shapes[rec.0] = Shape::Ball(
                        Ball {
                            position: Vec2 {
                                x: b.position.x + rec.1.translate_by.x,
                                y: b.position.y + rec.1.translate_by.y,
                            },
                            velocity: rec.1.vf,
                            ..b
                        },
                    );
                }
            }
        }
        i = i + 1;
    }
    proof {
        lemma_apply_collisions_len(old(shapes)@, collisions@, n as int);
    }
}

} // verus!
