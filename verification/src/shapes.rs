//! 2D shapes — balls and line segments — and the narrow-phase collision
//! predicates between them. All tests that compare a distance against a
//! radius are carried out on squares, so they are exact; only
//! `point_line_distance` itself rounds, through the integer square root.

use crate::error::SimError;
use crate::fixed::{div_tz, fits_i64, fx_mul_spec, SCALE};
use crate::vec2::{in_lim, Vec2, VEC_LIM};
use vstd::prelude::*;

verus! {

/// Bound on 2D world coordinates (positions, velocities, forces): keeps
/// separations, cached direction vectors and doubled normals inside the
/// vector range.
pub const W_LIM: i64 = 500_000_000;

/// A circular body: a point mass with a collision radius.
#[derive(Clone, Copy, Debug, PartialEq, Eq, Structural)]
pub struct Ball {
    pub position: Vec2,
    pub velocity: Vec2,
    pub acceleration: Vec2,
    pub force: Vec2,
    pub mass: i64,
    pub radius: i64,
    /// Fraction of normal velocity kept through a collision, in `[0, SCALE]`.
    pub elasticity: i64,
    /// Exponential tangential damping factor, non-negative.
    pub friction: i64,
}

/// Well-formed ball: positive mass, non-negative radius, restitution within
/// `[0, 1]`, every vector inside the working range.
pub open spec fn ball_wf(b: Ball) -> bool {
    &&& 1 <= b.mass <= W_LIM
    &&& 0 <= b.radius <= W_LIM
    &&& 0 <= b.elasticity <= SCALE
    &&& 0 <= b.friction <= W_LIM
    &&& in_lim(b.position, W_LIM as int)
    &&& in_lim(b.velocity, W_LIM as int)
    &&& in_lim(b.acceleration, W_LIM as int)
    &&& in_lim(b.force, W_LIM as int)
}

impl Ball {
    /// Build a ball; a non-positive or oversized mass, a negative radius or
    /// out-of-range vectors are rejected as an invalid configuration.
    /// Elasticity starts fully elastic and friction at zero, the way scene
    /// setup tunes them afterwards.
    pub fn new(
        position: Vec2,
        velocity: Vec2,
        acceleration: Vec2,
        force: Vec2,
        mass: i64,
        radius: i64,
    ) -> (r: Result<Ball, SimError>)
        ensures
            (r is Ok) == (1 <= mass <= W_LIM && 0 <= radius <= W_LIM && in_lim(
                position,
                W_LIM as int,
            ) && in_lim(velocity, W_LIM as int) && in_lim(acceleration, W_LIM as int) && in_lim(
                force,
                W_LIM as int,
            )),
            r matches Ok(b) ==> b == (Ball {
                position,
                velocity,
                acceleration,
                force,
                mass,
                radius,
                elasticity: SCALE,
                friction: 0,
            }) && ball_wf(b),
            r matches Err(e) ==> e is InvalidConfiguration,
    {
        if mass < 1 || mass > W_LIM || radius < 0 || radius > W_LIM || !position.within(W_LIM)
            || !velocity.within(W_LIM) || !acceleration.within(W_LIM) || !force.within(W_LIM) {
            return Err(SimError::InvalidConfiguration);
        }
        Ok(
            Ball {
                position,
                velocity,
                acceleration,
                force,
                mass,
                radius,
                elasticity: SCALE,
                friction: 0,
            },
        )
    }

    /// The default ball of scene setup: at rest at the origin, unit mass,
    /// radius ten.
    pub fn new_default() -> (r: Ball)
        ensures
            r == (Ball {
                position: Vec2 { x: 0, y: 0 },
                velocity: Vec2 { x: 0, y: 0 },
                acceleration: Vec2 { x: 0, y: 0 },
                force: Vec2 { x: 0, y: 0 },
                mass: SCALE,
                radius: 10_000,
                elasticity: SCALE,
                friction: 0,
            }),
            ball_wf(r),
    {
        Ball {
            position: Vec2 { x: 0, y: 0 },
            velocity: Vec2 { x: 0, y: 0 },
            acceleration: Vec2 { x: 0, y: 0 },
            force: Vec2 { x: 0, y: 0 },
            mass: SCALE,
            radius: 10_000,
            elasticity: SCALE,
            friction: 0,
        }
    }

    /// The ball moved to `position`, everything else unchanged.
    pub fn translate_to(self, position: Vec2) -> (r: Ball)
        ensures
            r == (Ball { position, ..self }),
    {
        Ball { position, ..self }
    }

    /// Shift the ball's position by `delta`.
    pub fn translate_by(&mut self, delta: Vec2)
        requires
            i64::MIN <= old(self).position.x + delta.x <= i64::MAX,
            i64::MIN <= old(self).position.y + delta.y <= i64::MAX,
        ensures
            final(self).position.x == old(self).position.x + delta.x,
            final(self).position.y == old(self).position.y + delta.y,
            *final(self) == (Ball { position: final(self).position, ..*old(self) }),
    {
        self.position = self.position.add(delta);
    }
}

/// A line segment, with its direction vector cached.
#[derive(Clone, Copy, Debug, PartialEq, Eq, Structural)]
pub struct Line {
    pub start_point: Vec2,
    pub end_point: Vec2,
    /// Cached `end_point - start_point`.
    pub d: Vec2,
    /// Restitution of the surface, in `[0, SCALE]`.
    pub elasticity: i64,
    /// Exponential tangential damping factor, non-negative.
    pub friction: i64,
}

/// Well-formed line: endpoints in range and the cached direction consistent.
pub open spec fn line_wf(l: Line) -> bool {
    &&& in_lim(l.start_point, W_LIM as int)
    &&& in_lim(l.end_point, W_LIM as int)
    &&& l.d.x == l.end_point.x - l.start_point.x
    &&& l.d.y == l.end_point.y - l.start_point.y
    &&& 0 <= l.elasticity <= SCALE
    &&& 0 <= l.friction <= W_LIM
}

impl Line {
    /// Build a segment from `start` to `end`; fully elastic, frictionless
    /// surface until tuned.
    pub fn new(start: Vec2, end: Vec2) -> (r: Line)
        requires
            in_lim(start, W_LIM as int),
            in_lim(end, W_LIM as int),
        ensures
            r.start_point == start,
            r.end_point == end,
            r.d.x == end.x - start.x,
            r.d.y == end.y - start.y,
            r.elasticity == SCALE,
            r.friction == 0,
            line_wf(r),
    {
        Line { start_point: start, end_point: end, d: end.sub(start), elasticity: SCALE, friction: 0 }
    }

    /// The segment from the origin to the point `vector` names.
    pub fn from_vector(vector: Vec2) -> (r: Line)
        requires
            in_lim(vector, W_LIM as int),
        ensures
            r.start_point == (Vec2 { x: 0, y: 0 }),
            r.end_point == vector,
            r.d == vector,
            line_wf(r),
    {
        Line::new(Vec2 { x: 0, y: 0 }, vector)
    }

    /// The vector from a segment's start to its end.
    pub fn to_vector(line: &Line) -> (r: Vec2)
        requires
            in_lim(line.start_point, W_LIM as int),
            in_lim(line.end_point, W_LIM as int),
        ensures
            r.x == line.end_point.x - line.start_point.x,
            r.y == line.end_point.y - line.start_point.y,
    {
        line.end_point.sub(line.start_point)
    }

    /// Shift both endpoints by `delta`.
    pub fn translate_by(&mut self, delta: Vec2)
        requires
            line_wf(*old(self)),
            in_lim(delta, W_LIM as int),
            -W_LIM <= old(self).start_point.x + delta.x <= W_LIM,
            -W_LIM <= old(self).start_point.y + delta.y <= W_LIM,
            -W_LIM <= old(self).end_point.x + delta.x <= W_LIM,
            -W_LIM <= old(self).end_point.y + delta.y <= W_LIM,
        ensures
            final(self).start_point.x == old(self).start_point.x + delta.x,
            final(self).start_point.y == old(self).start_point.y + delta.y,
            final(self).end_point.x == old(self).end_point.x + delta.x,
            final(self).end_point.y == old(self).end_point.y + delta.y,
            final(self).d == old(self).d,
            final(self).elasticity == old(self).elasticity,
            final(self).friction == old(self).friction,
            line_wf(*final(self)),
    {
        self.start_point = self.start_point.add(delta);
        self.end_point = self.end_point.add(delta);
    }

    /// Move the segment so its start sits at `position`, keeping its span.
    pub fn translate_to(&mut self, position: Vec2)
        requires
            line_wf(*old(self)),
            in_lim(position, W_LIM as int),
            -W_LIM <= position.x + old(self).d.x <= W_LIM,
            -W_LIM <= position.y + old(self).d.y <= W_LIM,
        ensures
            final(self).start_point == position,
            final(self).end_point.x == position.x + old(self).d.x,
            final(self).end_point.y == position.y + old(self).d.y,
            final(self).d == old(self).d,
            final(self).elasticity == old(self).elasticity,
            final(self).friction == old(self).friction,
            line_wf(*final(self)),
    {
        let d = self.end_point.sub(self.start_point);
        self.start_point = position;
        self.end_point = position.add(d);
    }

    /// A vector perpendicular to the segment: twice `(dy, -dx)`, the way the
    /// span of the doubled perpendicular segment comes out. Only the
    /// direction matters to callers; responses normalize it.
    pub fn normal(&self) -> (r: Vec2)
        requires
            line_wf(*self),
        ensures
            r.x == 2 * (self.end_point.y - self.start_point.y),
            r.y == -2 * (self.end_point.x - self.start_point.x),
            in_lim(r, VEC_LIM as int),
    {
        let dx: i64 = self.end_point.x - self.start_point.x;
        let dy: i64 = self.end_point.y - self.start_point.y;
        Vec2 { x: 2 * dy, y: -2 * dx }
    }

    /// The perpendicular segment itself, from `(-dy, dx)` to `(dy, -dx)`.
    /// Its endpoints can sit outside the world range; it only carries a
    /// direction.
    pub fn normal_line(&self) -> (r: Line)
        requires
            line_wf(*self),
        ensures
            r.start_point.x == -(self.end_point.y - self.start_point.y),
            r.start_point.y == self.end_point.x - self.start_point.x,
            r.end_point.x == self.end_point.y - self.start_point.y,
            r.end_point.y == -(self.end_point.x - self.start_point.x),
            r.d.x == r.end_point.x - r.start_point.x,
            r.d.y == r.end_point.y - r.start_point.y,
    {
        let dx: i64 = self.end_point.x - self.start_point.x;
        let dy: i64 = self.end_point.y - self.start_point.y;
        let start = Vec2 { x: -dy, y: dx };
        let end = Vec2 { x: dy, y: -dx };
        Line { start_point: start, end_point: end, d: end.sub(start), elasticity: SCALE, friction: 0 }
    }
}

/// A shape in the scene.
#[derive(Clone, Copy, Debug, PartialEq, Eq, Structural)]
pub enum Shape {
    Ball(Ball),
    Line(Line),
}

/// Well-formedness of either shape.
pub open spec fn shape_wf(s: Shape) -> bool {
    match s {
        Shape::Ball(b) => ball_wf(b),
        Shape::Line(l) => line_wf(l),
    }
}

/// Whether the circle crosses the segment: writing the squared distance
/// from the circle's center to the point at parameter `t` of the segment as
/// the quadratic `q(t) = a*t^2 + b*t + c`, the circle's boundary crosses the
/// segment's parameter range exactly when `q` has a real root inside
/// `[0, 1]`. The root conditions are stated through squares — for an
/// integer `k` and `disc >= 0`, `sqrt(disc) <= k` holds exactly when
/// `k >= 0 && disc <= k*k` — so no square root is taken and the test is
/// exact. A zero-length segment (`a == 0`) never reports a hit.
pub open spec fn ball_line_hit_spec(ball: Ball, line: Line) -> bool {
    let fx = line.start_point.x - ball.position.x;
    let fy = line.start_point.y - ball.position.y;
    let dx = line.end_point.x - line.start_point.x;
    let dy = line.end_point.y - line.start_point.y;
    let a = dx * dx + dy * dy;
    let b = 2 * (fx * dx + fy * dy);
    let c = fx * fx + fy * fy - ball.radius * ball.radius;
    let disc = b * b - 4 * a * c;
    let low_root_in = (-b >= 0 && disc <= b * b) && (-b - 2 * a <= 0 || disc >= (-b - 2 * a) * (-b
        - 2 * a));
    let high_root_in = (b <= 0 || disc >= b * b) && (2 * a + b >= 0 && disc <= (2 * a + b) * (2 * a
        + b));
    a > 0 && disc >= 0 && (low_root_in || high_root_in)
}

/// Narrow-phase circle-segment test, exact in integer arithmetic.
pub fn ball_line_collision(ball: &Ball, line: &Line) -> (r: bool)
    requires
        ball_wf(*ball),
        line_wf(*line),
    ensures
        r == ball_line_hit_spec(*ball, *line),
{
    let fx: i64 = line.start_point.x - ball.position.x;
    let fy: i64 = line.start_point.y - ball.position.y;
    let dx: i64 = line.end_point.x - line.start_point.x;
    let dy: i64 = line.end_point.y - line.start_point.y;
    proof {
        assert(-1_000_000_000_000_000_000 <= fx * dx <= 1_000_000_000_000_000_000
            && -1_000_000_000_000_000_000 <= fy * dy <= 1_000_000_000_000_000_000 && 0 <= dx * dx
            <= 1_000_000_000_000_000_000 && 0 <= dy * dy <= 1_000_000_000_000_000_000 && 0 <= fx
            * fx <= 1_000_000_000_000_000_000 && 0 <= fy * fy <= 1_000_000_000_000_000_000 && 0
            <= ball.radius * ball.radius <= 250_000_000_000_000_000) by (nonlinear_arith)
            requires
                -1_000_000_000 <= fx <= 1_000_000_000,
                -1_000_000_000 <= fy <= 1_000_000_000,
                -1_000_000_000 <= dx <= 1_000_000_000,
                -1_000_000_000 <= dy <= 1_000_000_000,
                0 <= ball.radius <= 500_000_000,
        ;
    }
    let a: i128 = (dx as i128) * (dx as i128) + (dy as i128) * (dy as i128);
    let b: i128 = 2 * ((fx as i128) * (dx as i128) + (fy as i128) * (dy as i128));
    let c: i128 = (fx as i128) * (fx as i128) + (fy as i128) * (fy as i128) - (ball.radius as i128)
        * (ball.radius as i128);
    proof {
        assert(b * b <= 16_000_000_000_000_000_000_000_000_000_000_000_000 && 0 <= b * b
            && -16_000_000_000_000_000_000_000_000_000_000_000_000 <= 4 * a * c && 4 * a * c
            <= 16_000_000_000_000_000_000_000_000_000_000_000_000 && (-b - 2 * a) * (-b - 2 * a)
            <= 64_000_000_000_000_000_000_000_000_000_000_000_000 && 0 <= (-b - 2 * a) * (-b - 2
            * a) && (2 * a + b) * (2 * a + b) <= 64_000_000_000_000_000_000_000_000_000_000_000_000
            && 0 <= (2 * a + b) * (2 * a + b)) by (nonlinear_arith)
            requires
                0 <= a <= 2_000_000_000_000_000_000,
                -4_000_000_000_000_000_000 <= b <= 4_000_000_000_000_000_000,
                -250_000_000_000_000_000 <= c <= 2_000_000_000_000_000_000,
        ;
    }
    let disc: i128 = b * b - 4 * a * c;
    if a == 0 || disc < 0 {
        return false;
    }
    let low_root_in: bool = (-b >= 0 && disc <= b * b) && (-b - 2 * a <= 0 || disc >= (-b - 2 * a)
        * (-b - 2 * a));
    let high_root_in: bool = (b <= 0 || disc >= b * b) && (2 * a + b >= 0 && disc <= (2 * a + b) * (
    2 * a + b));
    low_root_in || high_root_in
}

/// Whether two balls overlap: center distance below the sum of the radii,
/// compared in squares, so the test is exact.
pub open spec fn balls_colliding_spec(b1: Ball, b2: Ball) -> bool {
    let sx = b2.position.x - b1.position.x;
    let sy = b2.position.y - b1.position.y;
    sx * sx + sy * sy < (b1.radius + b2.radius) * (b1.radius + b2.radius)
}

/// Narrow-phase circle-circle test.
pub fn ball_ball_collision(ball_1: &Ball, ball_2: &Ball) -> (r: bool)
    requires
        ball_wf(*ball_1),
        ball_wf(*ball_2),
    ensures
        r == balls_colliding_spec(*ball_1, *ball_2),
{
    let d = ball_2.position.sub(ball_1.position);
    let sum_r: i64 = ball_1.radius + ball_2.radius;
    proof {
        assert(0 <= sum_r * sum_r <= 1_000_000_000_000_000_000) by (nonlinear_arith)
            requires
                0 <= sum_r <= 1_000_000_000,
        ;
    }
    let sum_sq: i64 = sum_r.checked_mul(sum_r).unwrap();
    d.norm_sq() < sum_sq
}

/// Whether a point lies within `threshold` of the ball's surface: center
/// distance below radius plus threshold, compared in squares.
pub open spec fn ball_point_hit_spec(ball: Ball, point: Vec2, threshold: int) -> bool {
    let sx = point.x - ball.position.x;
    let sy = point.y - ball.position.y;
    sx * sx + sy * sy < (ball.radius + threshold) * (ball.radius + threshold)
}

/// Narrow-phase circle-point test, with a pick-up threshold.
pub fn ball_point_collision(ball: &Ball, point: &Vec2, threshold: i64) -> (r: bool)
    requires
        ball_wf(*ball),
        in_lim(*point, W_LIM as int),
        0 <= threshold <= W_LIM,
    ensures
        r == ball_point_hit_spec(*ball, *point, threshold as int),
{
    let d = point.sub(ball.position);
    let reach: i64 = ball.radius + threshold;
    proof {
        assert(0 <= reach * reach <= 1_000_000_000_000_000_000) by (nonlinear_arith)
            requires
                0 <= reach <= 1_000_000_000,
        ;
    }
    let reach_sq: i64 = reach.checked_mul(reach).unwrap();
    d.norm_sq() < reach_sq
}

/// Segment-segment detection is a declared stub: it reports no collision.
/// The gap is known and kept open on purpose; segment geometry only takes
/// part in collisions through `ball_line_collision`.
pub fn line_line_collision(line_1: &Line, line_2: &Line) -> (r: bool)
    ensures
        r == false,
{
    false
}

/// What `perpendicular_component` returns: `a` minus the projection of `a`
/// onto `b`, each piece in fixed point; a zero `b` or a projection outside
/// the representable range leaves `a` unchanged.
pub open spec fn perp_component_spec(a: Vec2, b: Vec2) -> Vec2 {
    let bb = b.x * b.x + b.y * b.y;
    if bb == 0 {
        a
    } else {
        let c = div_tz((a.x * b.x + a.y * b.y) * SCALE, bb);
        let px = div_tz(b.x * c, SCALE as int);
        let py = div_tz(b.y * c, SCALE as int);
        if fits_i64(a.x - px) && fits_i64(a.y - py) {
            Vec2 { x: (a.x - px) as i64, y: (a.y - py) as i64 }
        } else {
            a
        }
    }
}

/// The component of `a` perpendicular to `b`.
fn perpendicular_component(a: &Vec2, b: &Vec2) -> (r: Vec2)
    requires
        in_lim(*a, VEC_LIM as int),
        in_lim(*b, VEC_LIM as int),
    ensures
        r == perp_component_spec(*a, *b),
{
    proof {
        assert(0 <= b.x * b.x && 0 <= b.y * b.y && b.x * b.x <= 4_000_000_000_000_000_000 && b.y
            * b.y <= 4_000_000_000_000_000_000 && -4_000_000_000_000_000_000 <= a.x * b.x
            <= 4_000_000_000_000_000_000 && -4_000_000_000_000_000_000 <= a.y * b.y
            <= 4_000_000_000_000_000_000) by (nonlinear_arith)
            requires
                -2_000_000_000 <= a.x <= 2_000_000_000,
                -2_000_000_000 <= a.y <= 2_000_000_000,
                -2_000_000_000 <= b.x <= 2_000_000_000,
                -2_000_000_000 <= b.y <= 2_000_000_000,
        ;
    }
    let bb: i128 = (b.x as i128) * (b.x as i128) + (b.y as i128) * (b.y as i128);
    if bb == 0 {
        return *a;
    }
    let dot: i128 = (a.x as i128) * (b.x as i128) + (a.y as i128) * (b.y as i128);
    let c: i128 = crate::fixed::div_i128(dot * (SCALE as i128), bb);
    proof {
        crate::fixed::lemma_div_tz_bounds(dot * SCALE, bb as int);
        assert(-16_000_000_000_000_000_000_000 <= dot * SCALE
            <= 16_000_000_000_000_000_000_000) by (nonlinear_arith)
            requires
                -8_000_000_000_000_000_000 <= dot <= 8_000_000_000_000_000_000,
                SCALE == 1000,
        ;
        assert(-32_000_000_000_000_000_000_000_000_000_000 <= (b.x as int) * c
            <= 32_000_000_000_000_000_000_000_000_000_000 && -32_000_000_000_000_000_000_000_000_000_000
            <= (b.y as int) * c <= 32_000_000_000_000_000_000_000_000_000_000) by (nonlinear_arith)
            requires
                -2_000_000_000 <= b.x <= 2_000_000_000,
                -2_000_000_000 <= b.y <= 2_000_000_000,
                -16_000_000_000_000_000_000_000 <= c <= 16_000_000_000_000_000_000_000,
        ;
        crate::fixed::lemma_div_tz_bounds((b.x as int) * c, SCALE as int);
        crate::fixed::lemma_div_tz_bounds((b.y as int) * c, SCALE as int);
    }
    let px: i128 = crate::fixed::div_i128((b.x as i128) * c, SCALE as i128);
    let py: i128 = crate::fixed::div_i128((b.y as i128) * c, SCALE as i128);
    let rx: i128 = (a.x as i128) - px;
    let ry: i128 = (a.y as i128) - py;
    if (i64::MIN as i128) <= rx && rx <= (i64::MAX as i128) && (i64::MIN as i128) <= ry && ry <= (
    i64::MAX as i128) {
        Vec2 { x: rx as i64, y: ry as i64 }
    } else {
        *a
    }
}

/// The component of `vector` perpendicular to the segment — the part along
/// the segment's normal.
pub fn line_norm_component(vector: &Vec2, line: &Line) -> (r: Vec2)
    requires
        in_lim(*vector, VEC_LIM as int),
        line_wf(*line),
    ensures
        r == perp_component_spec(
            *vector,
            Vec2 {
                x: (line.end_point.x - line.start_point.x) as i64,
                y: (line.end_point.y - line.start_point.y) as i64,
            },
        ),
{
    let d = line.end_point.sub(line.start_point);
    perpendicular_component(vector, &d)
}

/// The component of `line_1`'s span perpendicular to `line_2`.
pub fn line_line_norm_component(line_1: &Line, line_2: &Line) -> (r: Vec2)
    requires
        line_wf(*line_1),
        line_wf(*line_2),
    ensures
        r == perp_component_spec(
            Vec2 {
                x: (line_1.end_point.x - line_1.start_point.x) as i64,
                y: (line_1.end_point.y - line_1.start_point.y) as i64,
            },
            Vec2 {
                x: (line_2.end_point.x - line_2.start_point.x) as i64,
                y: (line_2.end_point.y - line_2.start_point.y) as i64,
            },
        ),
{
    let d = line_1.end_point.sub(line_1.start_point);
    line_norm_component(&d, line_2)
}

/// What `point_line_distance` returns: the point's distance to its
/// projection onto the segment, the projection parameter clamped to the
/// segment's range; a zero-length segment degenerates to the distance
/// between the two points. The division and the square root both round
/// down.
pub open spec fn point_line_distance_spec(line: Line, point: Vec2) -> int {
    let dx = line.end_point.x - line.start_point.x;
    let dy = line.end_point.y - line.start_point.y;
    let l2 = dx * dx + dy * dy;
    if l2 == 0 {
        let sx = point.x - line.start_point.x;
        let sy = point.y - line.start_point.y;
        crate::vec2::isqrt_spec(sx * sx + sy * sy)
    } else {
        let dot = (point.x - line.start_point.x) * dx + (point.y - line.start_point.y) * dy;
        let t_raw = div_tz(dot * SCALE, l2);
        let t = if t_raw < 0 {
            0
        } else if t_raw > SCALE {
            SCALE as int
        } else {
            t_raw
        };
        let ex = point.x - (line.start_point.x + fx_mul_spec(dx, t));
        let ey = point.y - (line.start_point.y + fx_mul_spec(dy, t));
        crate::vec2::isqrt_spec(ex * ex + ey * ey)
    }
}

/// Distance from a point to a segment, in fixed-point units (rounded down).
pub fn point_line_distance(line: &Line, point: &Vec2) -> (r: i64)
    requires
        line_wf(*line),
        in_lim(*point, W_LIM as int),
    ensures
        r == point_line_distance_spec(*line, *point),
        0 <= r <= crate::fixed::ISQRT_ROOT_LIM,
{
    let dx: i64 = line.end_point.x - line.start_point.x;
    let dy: i64 = line.end_point.y - line.start_point.y;
    proof {
        assert(0 <= dx * dx <= 1_000_000_000_000_000_000 && 0 <= dy * dy
            <= 1_000_000_000_000_000_000) by (nonlinear_arith)
            requires
                -1_000_000_000 <= dx <= 1_000_000_000,
                -1_000_000_000 <= dy <= 1_000_000_000,
        ;
    }
    let l2: i64 = (dx.checked_mul(dx).unwrap()).checked_add(dy.checked_mul(dy).unwrap()).unwrap();
    if l2 == 0 {
        let s = point.sub(line.start_point);
        return s.norm();
    }
    let sx: i64 = point.x - line.start_point.x;
    let sy: i64 = point.y - line.start_point.y;
    proof {
        assert(-1_000_000_000_000_000_000 <= sx * dx <= 1_000_000_000_000_000_000
            && -1_000_000_000_000_000_000 <= sy * dy <= 1_000_000_000_000_000_000) by (nonlinear_arith)
            requires
                -1_000_000_000 <= sx <= 1_000_000_000,
                -1_000_000_000 <= sy <= 1_000_000_000,
                -1_000_000_000 <= dx <= 1_000_000_000,
                -1_000_000_000 <= dy <= 1_000_000_000,
        ;
    }
    let dot: i64 = (sx.checked_mul(dx).unwrap()).checked_add(sy.checked_mul(dy).unwrap()).unwrap();
    let t_wide: i128 = crate::fixed::div_i128((dot as i128) * (SCALE as i128), l2 as i128);
    let t: i64 = if t_wide < 0 {
        0
    } else if t_wide > (SCALE as i128) {
        SCALE
    } else {
        t_wide as i64
    };
    proof {
        assert(-1_000_000_000_000 <= dx * t <= 1_000_000_000_000 && -1_000_000_000_000 <= dy * t
            <= 1_000_000_000_000) by (nonlinear_arith)
            requires
                -1_000_000_000 <= dx <= 1_000_000_000,
                -1_000_000_000 <= dy <= 1_000_000_000,
                0 <= t <= 1000,
        ;
    }
    let px: i64 = crate::fixed::fx_mul_wide(dx, t);
    let py: i64 = crate::fixed::fx_mul_wide(dy, t);
    proof {
        crate::vec2::lemma_div_mag_le(dx * t, SCALE as int, 1_000_000_000);
        crate::vec2::lemma_div_mag_le(dy * t, SCALE as int, 1_000_000_000);
    }
    let e = Vec2 { x: point.x - (line.start_point.x + px), y: point.y - (line.start_point.y + py) };
    e.norm()
}

} // verus!
