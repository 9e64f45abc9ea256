//! Tests for the fixed-timestep driver, the Runge-Kutta integrator, the
//! rigid spring, and the fixed-point building blocks.

use pointmass::error::SimError;
use pointmass::fixed::{decay, div_i64, fx_div, fx_mul, isqrt};
use pointmass::physics::{ForceGenerator, ObjectForceGenerator};
use pointmass::solver::{EntityState, RungeKuttaIntegrator, TimeIntegrator};
use pointmass::spring::{Spring, SpringNode};
use pointmass::timestep::DiscreteTimeStepSim;
use pointmass::vec2::Vec2;
use pointmass::vec3::Vec3;

#[test]
fn accumulator_drains_below_one_interval() {
    let mut sim = DiscreteTimeStepSim::new(0, 16, 0).unwrap();
    let steps = sim.run_sim(100, 1_000);
    assert_eq!(steps, 6);
    assert_eq!(sim.accumulator, 4);
    assert!(sim.accumulator < sim.time_interval);
    // An idle frame runs nothing and keeps the carry.
    let steps2 = sim.run_sim(105, 1_000);
    assert_eq!(steps2, 0);
    assert_eq!(sim.accumulator, 9);
}

#[test]
fn accumulator_invariant_over_many_calls() {
    let mut sim = DiscreteTimeStepSim::new(0, 17, 5).unwrap();
    let mut now: u64 = 0;
    for k in 1..200u64 {
        now += (k * 7) % 45;
        sim.run_sim(now, 10_000);
        assert!(sim.accumulator < sim.time_interval);
    }
}

#[test]
fn catch_up_is_capped() {
    let mut sim = DiscreteTimeStepSim::new(0, 10, 0).unwrap();
    let steps = sim.run_sim(1_000_000, 3);
    assert_eq!(steps, 3, "the spiral-of-death guard caps catch-up steps");
    assert!(sim.accumulator < 10, "excess time is dropped, not owed");
}

#[test]
fn zero_interval_is_rejected() {
    assert!(matches!(
        DiscreteTimeStepSim::new(0, 0, 0),
        Err(SimError::InvalidConfiguration)
    ));
}

#[test]
fn runge_kutta_uniform_motion() {
    let integrator = RungeKuttaIntegrator::new(10).unwrap();
    let state = EntityState {
        velocity: Vec2::new(1_000, 0),
        position: Vec2::new(0, 0),
        mass: 1_000,
    };
    let forces: Vec<ForceGenerator> = Vec::new();
    let (dx, dv) = integrator.integrate(&state, &forces, 0);
    assert_eq!(dx, Vec2::new(10, 0), "no forces: position moves by v * dt");
    assert_eq!(dv, Vec2::new(0, 0));
}

#[test]
fn runge_kutta_constant_gravity() {
    let integrator = RungeKuttaIntegrator::new(10).unwrap();
    let state = EntityState {
        velocity: Vec2::new(0, 0),
        position: Vec2::new(0, 0),
        mass: 1_000,
    };
    let gravity = ObjectForceGenerator::new(9_800, Vec2::new(0, 1_000), 0).unwrap();
    let forces: Vec<ForceGenerator> = vec![ForceGenerator::Object(gravity)];
    let (_dx, dv) = integrator.integrate(&state, &forces, 0);
    assert_eq!(dv, Vec2::new(0, 98), "velocity gains g * dt under a uniform field");
    // The field scales with mass, so the acceleration — and the fall — is
    // the same for a heavier body.
    let heavy = EntityState {
        velocity: Vec2::new(0, 0),
        position: Vec2::new(0, 0),
        mass: 4_000,
    };
    let (_dx2, dv2) = integrator.integrate(&heavy, &forces, 0);
    assert_eq!(dv2, Vec2::new(0, 98), "heavier bodies fall at the same rate");
}

#[test]
fn generators_thread_the_running_force() {
    let state = EntityState {
        velocity: Vec2::new(0, 0),
        position: Vec2::new(0, 0),
        mass: 2_000,
    };
    let field = ForceGenerator::Object(
        ObjectForceGenerator::new(9_800, Vec2::new(0, 1_000), 0).unwrap(),
    );
    // mass * g on top of the incoming force.
    assert_eq!(
        field.accumulate(&state, &Vec2::new(100, 100)),
        Vec2::new(100, 19_700)
    );
    let spring = ForceGenerator::Spring(pointmass::physics::SpringForceGenerator {
        k: 1_000,
        b: 0,
        length: 0,
        displacement: Vec2::new(3_000, 0),
        entity_idx: 0,
    });
    // k * displacement on top of the incoming force.
    assert_eq!(
        spring.accumulate(&state, &Vec2::new(100, 0)),
        Vec2::new(3_100, 0)
    );
}

#[test]
fn timestep_scaling_is_bounded() {
    let mut integrator = RungeKuttaIntegrator::new(10).unwrap();
    integrator.increase_dt();
    assert_eq!(integrator.dt(), 20);
    integrator.decrease_dt();
    integrator.decrease_dt();
    assert_eq!(integrator.dt(), 5);
    let mut tiny = RungeKuttaIntegrator::new(1).unwrap();
    tiny.decrease_dt();
    assert_eq!(tiny.dt(), 1, "the timestep stays away from zero");
    let mut big = RungeKuttaIntegrator::new(9_000).unwrap();
    big.increase_dt();
    assert_eq!(big.dt(), 10_000, "the timestep stays drainable");
    assert!(RungeKuttaIntegrator::new(0).is_err());
    assert!(big.set_dt(0).is_err());
    assert!(big.set_dt(100).is_ok());
    assert_eq!(big.dt(), 100);
    let _ = TimeIntegrator::RungeKutta;
    let _ = TimeIntegrator::SemiImplicitEuler;
}

#[test]
fn stretched_spring_first_step() {
    // Rest length 10, stiffness 1, unit masses 15 apart, undamped,
    // dt = 0.01: each end's first velocity change is 0.05 toward the other.
    let mut s = Spring::new(
        1_000,
        10_000,
        Vec3::new(0, 0, 0),
        Vec3::new(15_000, 0, 0),
        Vec3::new(0, 0, 0),
        Vec3::new(0, 0, 0),
        1_000,
        0,
    )
    .unwrap();
    let pool: Vec<SpringNode> = Vec::new();
    s.update_vel(&pool, 10);
    assert_eq!(s.node_1.force, Vec3::new(5_000, 0, 0));
    assert_eq!(s.node_2.force, Vec3::new(-5_000, 0, 0));
    assert_eq!(s.node_1.vel, Vec3::new(50, 0, 0));
    assert_eq!(s.node_2.vel, Vec3::new(-50, 0, 0));
}

#[test]
fn spring_at_rest_is_quiet() {
    let mut s = Spring::new_default_spring();
    let pool: Vec<SpringNode> = Vec::new();
    let before = s.clone();
    s.step_spring(10, &pool);
    assert_eq!(s.node_1.pos, before.node_1.pos);
    assert_eq!(s.node_2.pos, before.node_2.pos);
    assert_eq!(s.node_1.vel, Vec3::new(0, 0, 0));
    assert_eq!(s.node_2.vel, Vec3::new(0, 0, 0));
}

#[test]
fn spring_rejects_bad_configuration() {
    let zero = Vec3::new(0, 0, 0);
    assert!(matches!(
        Spring::new(-1, 10_000, zero, zero, zero, zero, 1_000, 0),
        Err(SimError::InvalidConfiguration)
    ));
    assert!(matches!(
        Spring::new(1_000, 10_000, zero, zero, zero, zero, 0, 0),
        Err(SimError::InvalidConfiguration)
    ));
}

#[test]
fn coupled_nodes_feed_forces_back() {
    let mut s = Spring::new(
        1_000,
        10_000,
        Vec3::new(0, 0, 0),
        Vec3::new(15_000, 0, 0),
        Vec3::new(0, 0, 0),
        Vec3::new(0, 0, 0),
        1_000,
        0,
    )
    .unwrap();
    s.node_1.couple(0);
    let pool = vec![SpringNode {
        pos: Vec3::new(0, 0, 0),
        vel: Vec3::new(0, 0, 0),
        force: Vec3::new(0, 700, 0),
        coupled: Vec::new(),
        mass: 1_000,
    }];
    s.update_vel(&pool, 10);
    // Each coupled partner contributes exactly once.
    assert_eq!(s.node_1.force, Vec3::new(5_000, 700, 0));
    assert_eq!(s.node_2.force, Vec3::new(-5_000, 0, 0));
}

#[test]
fn step_spring_is_semi_implicit() {
    // Velocity updates first; the position then moves with the updated
    // velocity within the same step.
    let mut s = Spring::new(
        1_000,
        10_000,
        Vec3::new(0, 0, 0),
        Vec3::new(15_000, 0, 0),
        Vec3::new(0, 0, 0),
        Vec3::new(0, 0, 0),
        1_000,
        0,
    )
    .unwrap();
    let pool: Vec<SpringNode> = Vec::new();
    s.step_spring(1_000, &pool);
    assert_eq!(s.node_1.vel, Vec3::new(5_000, 0, 0));
    assert_eq!(s.node_2.vel, Vec3::new(-5_000, 0, 0));
    assert_eq!(s.node_1.pos, Vec3::new(5_000, 0, 0));
    assert_eq!(s.node_2.pos, Vec3::new(10_000, 0, 0));
}

#[test]
fn damping_ratio_formula() {
    let s = Spring::new(
        10_000_000,
        10_000,
        Vec3::new(-5_000, 0, 0),
        Vec3::new(5_000, 0, 0),
        Vec3::new(0, 0, 0),
        Vec3::new(0, 0, 0),
        1_000,
        10_000,
    )
    .unwrap();
    // zeta = c / (2 * sqrt(m * k)) = 10 / (2 * sqrt(1 * 10000)) = 0.05.
    assert_eq!(s.zeta(), 50);
}

#[test]
fn fixed_point_scalar_ops() {
    assert_eq!(fx_mul(1_500, 2_000), 3_000);
    assert_eq!(fx_mul(-1_500, 2_000), -3_000);
    assert_eq!(fx_div(3_000, 2_000), 1_500);
    assert_eq!(div_i64(-7, 2), -3, "division truncates toward zero");
    assert_eq!(isqrt(0), 0);
    assert_eq!(isqrt(99), 9);
    assert_eq!(isqrt(100), 10);
    assert_eq!(decay(0), 1_000, "no damping at zero");
    assert_eq!(decay(1_000), 421, "about one third left after one unit");
}

#[test]
fn vector_lengths_and_units() {
    assert_eq!(Vec2::new(3_000, 4_000).norm(), 5_000);
    assert_eq!(Vec2::new(3_000, 4_000).unit(), Vec2::new(600, 800));
    assert_eq!(Vec3::new(2_000, 3_000, 6_000).norm(), 7_000);
    assert_eq!(Vec3::new(2_000, 3_000, 6_000).unit(), Vec3::new(285, 428, 857));
    assert_eq!(Vec2::new(-5, 7).dot(Vec2::new(1_000, 1_000)), 2);
}
