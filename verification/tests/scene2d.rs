//! Scenario tests for the 2D scene: narrow-phase predicates, collision
//! response, restitution behaviour, constraint solving and the collision
//! separation property.

use pointmass::constraints::{
    apply_updates, solve_constraints, Constraint, DistanceConstraint, FixedPointConstraint,
    SpringConstraint,
};
use pointmass::error::SimError;
use pointmass::physics::{
    calc_acceleration, calc_pos, calc_vel, collision_position_delta, elastic_collision_velocity,
    interpolate_mouse_force, project, wall_collision_velocity, ObjectForceGenerator,
    PointForceGenerator,
};
use pointmass::scene::{apply_collisions, detect_collisions, resolve_ball_ball, resolve_ball_line};
use pointmass::shapes::{
    ball_ball_collision, ball_line_collision, ball_point_collision, line_line_collision,
    point_line_distance, Ball, Line, Shape,
};
use pointmass::vec2::Vec2;

fn ball_at(x: i64, y: i64, radius: i64) -> Ball {
    let zero = Vec2::new(0, 0);
    let b = Ball::new(Vec2::new(x, y), zero, zero, zero, 1000, radius).unwrap();
    b
}

#[test]
fn ball_new_rejects_bad_mass() {
    let zero = Vec2::new(0, 0);
    assert!(matches!(
        Ball::new(zero, zero, zero, zero, 0, 1000),
        Err(SimError::InvalidConfiguration)
    ));
    assert!(matches!(
        Ball::new(zero, zero, zero, zero, 1000, -1),
        Err(SimError::InvalidConfiguration)
    ));
}

#[test]
fn ball_ball_collision_is_radius_sum() {
    let a = ball_at(0, 0, 10_000);
    let touching = ball_at(20_000, 0, 10_000);
    let inside = ball_at(19_999, 0, 10_000);
    assert!(!ball_ball_collision(&a, &touching));
    assert!(ball_ball_collision(&a, &inside));
}

#[test]
fn ball_line_collision_cases() {
    let ground = Line::new(Vec2::new(0, 0), Vec2::new(100_000, 0));
    let crossing = ball_at(50_000, 5_000, 10_000);
    let above = ball_at(50_000, 20_000, 10_000);
    let past_end = ball_at(150_000, 0, 10_000);
    assert!(ball_line_collision(&crossing, &ground));
    assert!(!ball_line_collision(&above, &ground));
    assert!(!ball_line_collision(&past_end, &ground));
}

#[test]
fn ball_point_collision_threshold() {
    let a = ball_at(0, 0, 10_000);
    assert!(ball_point_collision(&a, &Vec2::new(14_999, 0), 5_000));
    assert!(!ball_point_collision(&a, &Vec2::new(15_000, 0), 5_000));
}

#[test]
fn line_line_collision_is_a_stub() {
    let l1 = Line::new(Vec2::new(0, 0), Vec2::new(10_000, 0));
    let l2 = Line::new(Vec2::new(5_000, -5_000), Vec2::new(5_000, 5_000));
    assert!(!line_line_collision(&l1, &l2));
}

#[test]
fn point_line_distance_projects_and_clamps() {
    let l = Line::new(Vec2::new(0, 0), Vec2::new(10_000, 0));
    assert_eq!(point_line_distance(&l, &Vec2::new(5_000, 3_000)), 3_000);
    // Beyond the end, the distance is to the endpoint.
    assert_eq!(point_line_distance(&l, &Vec2::new(13_000, 4_000)), 5_000);
}

#[test]
fn wall_reflection_full_restitution() {
    let mut ball = ball_at(0, 0, 10_000);
    ball.velocity = Vec2::new(300, -400);
    let normal = Vec2::new(0, 1000);
    let out = wall_collision_velocity(normal, 1000, 0, 10, &ball);
    assert_eq!(out, Vec2::new(300, 400), "normal part negated, tangent kept");
}

#[test]
fn wall_absorption_zero_restitution() {
    let mut ball = ball_at(0, 0, 10_000);
    ball.velocity = Vec2::new(300, -400);
    let normal = Vec2::new(0, 1000);
    let out = wall_collision_velocity(normal, 0, 0, 10, &ball);
    assert_eq!(out, Vec2::new(300, 0), "normal component exactly removed");
}

#[test]
fn wall_friction_damps_tangent() {
    let mut ball = ball_at(0, 0, 10_000);
    ball.velocity = Vec2::new(1000, -400);
    let normal = Vec2::new(0, 1000);
    let out = wall_collision_velocity(normal, 1000, 100_000, 10, &ball);
    assert!(out.x < 1000 && out.x >= 0, "tangential part shrinks, never flips");
    assert_eq!(out.y, 400);
}

#[test]
fn elastic_exchange_equal_masses() {
    let mut a = ball_at(0, 0, 10_000);
    let mut b = ball_at(15_000, 0, 10_000);
    a.velocity = Vec2::new(1000, 0);
    b.velocity = Vec2::new(0, 0);
    let (va, vb) = elastic_collision_velocity(&a, &b);
    assert_eq!(va, Vec2::new(0, 0));
    assert_eq!(vb, Vec2::new(1000, 0), "equal masses swap velocities");
}

#[test]
fn elastic_exchange_momentum_within_residue() {
    // At full restitution the exchange keeps the total momentum to within
    // the proved truncation residue, 3 * SCALE + m_a + m_b, per axis.
    let zero = Vec2::new(0, 0);
    let mut a = Ball::new(zero, Vec2::new(1, 0), zero, zero, 1_500, 10_000).unwrap();
    let mut b = Ball::new(Vec2::new(15_000, 0), zero, zero, zero, 1_000, 10_000).unwrap();
    let bound: i64 = 3_000 + 1_500 + 1_000;
    let (va, vb) = elastic_collision_velocity(&a, &b);
    // Tiny momenta can truncate away entirely, but stay within the bound.
    assert_eq!((va, vb), (zero, zero));
    let drift = 1_500 * va.x + 1_000 * vb.x - 1_500 * 1;
    assert!(drift.abs() < bound);
    a.velocity = Vec2::new(777_123, -50_001);
    b.velocity = Vec2::new(-333_333, 20_000);
    let before_x = 1_500 * a.velocity.x + 1_000 * b.velocity.x;
    let before_y = 1_500 * a.velocity.y + 1_000 * b.velocity.y;
    let (va2, vb2) = elastic_collision_velocity(&a, &b);
    let drift_x = 1_500 * va2.x + 1_000 * vb2.x - before_x;
    let drift_y = 1_500 * va2.y + 1_000 * vb2.y - before_y;
    assert!(drift_x.abs() < bound && drift_y.abs() < bound);
}

#[test]
fn collision_separation_axis_aligned_exact() {
    // Two equal balls overlapping along x by 5 units: the response splits
    // the correction evenly and restores exactly the radius sum.
    let a = ball_at(0, 0, 10_000);
    let b = ball_at(15_000, 0, 10_000);
    let (c1, c2) = resolve_ball_ball(&a, &b).unwrap();
    assert_eq!(c1.translate_by, Vec2::new(-2_500, 0));
    assert_eq!(c2.translate_by, Vec2::new(2_500, 0));
    let new_gap = (b.position.x + c2.translate_by.x) - (a.position.x + c1.translate_by.x);
    assert_eq!(new_gap, 20_000, "separation equals the radius sum exactly");
}

#[test]
fn collision_separation_oblique_within_epsilon() {
    let a = ball_at(0, 0, 10_000);
    let b = ball_at(15_000, 5_000, 10_000);
    let (c1, c2) = resolve_ball_ball(&a, &b).unwrap();
    let nx = (b.position.x + c2.translate_by.x - a.position.x - c1.translate_by.x) as f64;
    let ny = (b.position.y + c2.translate_by.y - a.position.y - c1.translate_by.y) as f64;
    let dist = (nx * nx + ny * ny).sqrt();
    let sum = 20_000.0f64;
    assert!(dist >= sum - 20.0, "post-response distance {} vs {}", dist, sum);
}

#[test]
fn scan_and_apply_separate_scene() {
    let shapes = vec![
        Shape::Ball(ball_at(0, 0, 10_000)),
        Shape::Ball(ball_at(15_000, 0, 10_000)),
        Shape::Line(Line::new(Vec2::new(-50_000, -20_000), Vec2::new(50_000, -20_000))),
    ];
    let mut scene = shapes.clone();
    let records = detect_collisions(&scene, 10);
    assert_eq!(records.len(), 2, "one colliding pair yields two records");
    apply_collisions(&mut scene, &records);
    if let (Shape::Ball(a), Shape::Ball(b)) = (&scene[0], &scene[1]) {
        assert_eq!(b.position.x - a.position.x, 20_000);
    } else {
        panic!("shapes changed kind");
    }
}

#[test]
fn ball_line_response_pushes_out() {
    let ground = Line::new(Vec2::new(-50_000, 0), Vec2::new(50_000, 0));
    let mut ball = ball_at(0, 5_000, 10_000);
    ball.velocity = Vec2::new(0, -1000);
    let c = resolve_ball_line(&ball, &ground, 10).unwrap();
    // Penetration is radius minus distance: 10 - 5 = 5 units, pushed up.
    assert_eq!(c.translate_by, Vec2::new(0, 5_000));
    assert_eq!(c.vf, Vec2::new(0, 1000), "fully elastic bounce reverses the fall");
}

#[test]
fn spring_constraint_first_velocity_update() {
    // Spring rest length 10, stiffness 1, two unit masses 15 apart,
    // dt = 0.01, undamped: the first velocity update is 0.05 toward the
    // other end, opposite signs at the two ends.
    let shapes = vec![
        Shape::Ball(ball_at(0, 0, 1_000)),
        Shape::Ball(ball_at(15_000, 0, 1_000)),
    ];
    let cs = vec![Constraint::Spring(SpringConstraint {
        index_0: 0,
        index_1: 1,
        distance: 10_000,
        k: 1_000,
        dampen: 0,
    })];
    let ups = solve_constraints(&shapes, &cs, 10);
    assert_eq!(ups.len(), 2);
    assert_eq!(ups[0].index, 0);
    assert_eq!(ups[0].velocity_update, Vec2::new(50, 0));
    assert_eq!(ups[1].index, 1);
    assert_eq!(ups[1].velocity_update, Vec2::new(-50, 0));
    let mut scene = shapes.clone();
    apply_updates(&mut scene, &ups);
    if let Shape::Ball(b0) = &scene[0] {
        assert_eq!(b0.velocity, Vec2::new(50, 0));
    } else {
        panic!("shape changed kind");
    }
}

#[test]
fn distance_constraint_halves_correction() {
    let shapes = vec![
        Shape::Ball(ball_at(0, 0, 1_000)),
        Shape::Ball(ball_at(16_000, 0, 1_000)),
    ];
    let cs = vec![Constraint::Distance(DistanceConstraint::new(0, 1, 10_000))];
    let ups = solve_constraints(&shapes, &cs, 10);
    assert_eq!(ups.len(), 2);
    // Six units too far apart: each end moves three toward the other.
    assert_eq!(ups[0].position_update, Vec2::new(3_000, 0));
    assert_eq!(ups[1].position_update, Vec2::new(-3_000, 0));
}

#[test]
fn fixed_point_constraint_pins() {
    let shapes = vec![Shape::Ball(ball_at(7_000, -2_000, 1_000))];
    let cs = vec![Constraint::FixedPoint(FixedPointConstraint {
        index: 0,
        position: Vec2::new(1_000, 1_000),
    })];
    let ups = solve_constraints(&shapes, &cs, 10);
    assert_eq!(ups.len(), 1);
    assert_eq!(ups[0].position_update, Vec2::new(-6_000, 3_000));
    let mut scene = shapes.clone();
    apply_updates(&mut scene, &ups);
    if let Shape::Ball(b) = &scene[0] {
        assert_eq!(b.position, Vec2::new(1_000, 1_000));
    } else {
        panic!("shape changed kind");
    }
}

#[test]
fn restitution_bounce_recovers_height() {
    // A ball dropped onto a fully elastic, frictionless floor must climb
    // back close to its starting height after one bounce.
    let floor = Line::new(Vec2::new(-400_000, 0), Vec2::new(400_000, 0));
    let mut ball = ball_at(0, 100_000, 10_000);
    let dt: i64 = 10;
    let g: i64 = 9_800;
    let start = ball.position.y;
    let mut bounced = false;
    let mut apex_after_bounce: i64 = 0;
    for _ in 0..5_000 {
        // Semi-implicit fall under gravity.
        ball.velocity = Vec2::new(
            ball.velocity.x,
            ball.velocity.y - (g * dt) / 1000,
        );
        ball.position = Vec2::new(
            ball.position.x,
            ball.position.y + (ball.velocity.y * dt) / 1000,
        );
        if let Some(c) = resolve_ball_line(&ball, &floor, dt) {
            ball.position = Vec2::new(
                ball.position.x + c.translate_by.x,
                ball.position.y + c.translate_by.y,
            );
            ball.velocity = c.vf;
            bounced = true;
        }
        if bounced && ball.position.y > apex_after_bounce {
            apex_after_bounce = ball.position.y;
        }
        if bounced && ball.velocity.y < 0 && apex_after_bounce > 0 {
            break;
        }
    }
    assert!(bounced, "the ball must reach the floor");
    let miss = (start - apex_after_bounce).abs();
    assert!(
        miss <= start / 20,
        "apex after bounce {} differs from start {} by {}",
        apex_after_bounce,
        start,
        miss
    );
}

#[test]
fn force_arithmetic_building_blocks() {
    let acc = calc_acceleration(&Vec2::new(9_800, 0), 2_000);
    assert_eq!(acc, Vec2::new(4_900, 0));
    let v = calc_vel(&Vec2::new(100, 0), &Vec2::new(9_800, 0), 10);
    assert_eq!(v, Vec2::new(198, 0));
    let p = calc_pos(&Vec2::new(5_000, 0), &Vec2::new(198, 0), 10);
    assert_eq!(p, Vec2::new(5_001, 0));
}

#[test]
fn collision_position_delta_scales_normal() {
    let d = collision_position_delta(Vec2::new(0, 2_000), 5_000);
    assert_eq!(d, Vec2::new(0, 5_000));
    let none = collision_position_delta(Vec2::new(0, 2_000), -1);
    assert_eq!(none, Vec2::new(0, 0));
}

#[test]
fn project_follows_first_vector() {
    // The projection of b on a: a * (a.b) / (a.a), independent of |a|.
    let r = project(&Vec2::new(1_000, 0), &Vec2::new(700, 900));
    assert_eq!(r, Vec2::new(700, 0));
    let r2 = project(&Vec2::new(2_000, 0), &Vec2::new(700, 900));
    assert_eq!(r2, Vec2::new(700, 0));
    assert_eq!(project(&Vec2::new(0, 0), &Vec2::new(5, 5)), Vec2::new(0, 0));
}

#[test]
fn generators_reject_bad_parameters() {
    assert!(matches!(
        PointForceGenerator::new(-1, Vec2::new(0, 0), 0),
        Err(SimError::InvalidConfiguration)
    ));
    assert!(PointForceGenerator::new(10_000, Vec2::new(0, 0), 0).is_ok());
    let g = ObjectForceGenerator::new(9_800, Vec2::new(0, 2_000), 3).unwrap();
    assert_eq!(g.direction, Vec2::new(0, 1_000), "direction is normalized");
    assert_eq!(g.get_entity_idx(), 3);
    assert_eq!(g.force(), Vec2::new(0, 9_800));
}

#[test]
fn mouse_force_steers_toward_pointer() {
    let r = interpolate_mouse_force(
        Vec2::new(0, 0),
        Vec2::new(100_000, 0),
        Vec2::new(0, 0),
        300_000,
        1_000,
    );
    assert!(r.x > 0 && r.y == 0);
    assert!(r.x <= 300_000);
}
