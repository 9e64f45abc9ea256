//! Scenario tests for the 3D particle engine: pairwise gravity, collision
//! impulses, momentum bookkeeping and the step driver's error behaviour.

use pointmass::error::SimError;
use pointmass::nbody::{accumulate_impulses, apply_impulses, step_particles, ForceConfig};
use pointmass::particle::{
    are_colliding, calc_collision_imp, electric_force, grav_force, particle, translate, Particle,
};
use pointmass::vec3::Vec3;

fn two_bodies_ten_apart() -> Vec<Particle> {
    let p1 = particle(Vec3::new(0, 0, 0), Vec3::new(0, 0, 0), 1000).unwrap();
    let p2 = particle(Vec3::new(10_000, 0, 0), Vec3::new(0, 0, 0), 1000).unwrap();
    vec![p1, p2]
}

fn momentum_sums(ps: &[Particle]) -> (i64, i64, i64) {
    let mut sx: i64 = 0;
    let mut sy: i64 = 0;
    let mut sz: i64 = 0;
    for p in ps {
        sx += p.momentum.x;
        sy += p.momentum.y;
        sz += p.momentum.z;
    }
    (sx, sy, sz)
}

#[test]
fn inverse_square_attraction_first_step() {
    // Two unit masses ten units apart, G = 100, dt = 0.01, no damping:
    // each body's momentum after one step is exactly G*m*m/r^2 * dt = 0.01
    // toward the other.
    let mut ps = two_bodies_ten_apart();
    let cfg = ForceConfig { gravity: 100_000, dampen: 0, restitution: 980 };
    let r = step_particles(&mut ps, &cfg, 10);
    assert!(r.is_ok());
    assert_eq!(ps[0].momentum.x, 10);
    assert_eq!(ps[1].momentum.x, -10);
    assert_eq!(ps[0].momentum.y, 0);
    assert_eq!(ps[1].momentum.y, 0);
    // Velocity magnitude is momentum over unit mass: 0.01, toward the other.
    assert_eq!(ps[0].mass, 1000);
}

#[test]
fn grav_force_exact_formula() {
    let ps = two_bodies_ten_apart();
    let f = grav_force(&ps[0], &ps[1], 100_000, 0);
    // G*m1*m2/r^2 = 100*1*1/100 = 1.0, along +x.
    assert_eq!(f, Vec3::new(1000, 0, 0));
    let f_back = grav_force(&ps[1], &ps[0], 100_000, 0);
    assert_eq!(f_back, Vec3::new(-1000, 0, 0));
}

#[test]
fn grav_force_damping_softens() {
    let ps = two_bodies_ten_apart();
    let with = grav_force(&ps[0], &ps[1], 100_000, 500);
    let without = grav_force(&ps[0], &ps[1], 100_000, 0);
    assert!(with.x < without.x);
    assert!(with.x > 0);
}

#[test]
fn grav_force_coincident_is_zero() {
    let p1 = particle(Vec3::new(5, 5, 5), Vec3::new(0, 0, 0), 1000).unwrap();
    let p2 = particle(Vec3::new(5, 5, 5), Vec3::new(0, 0, 0), 2000).unwrap();
    assert_eq!(grav_force(&p1, &p2, 100_000, 0), Vec3::new(0, 0, 0));
}

#[test]
fn electric_force_signs() {
    let mut p1 = particle(Vec3::new(0, 0, 0), Vec3::new(0, 0, 0), 1000).unwrap();
    let mut p2 = particle(Vec3::new(10_000, 0, 0), Vec3::new(0, 0, 0), 1000).unwrap();
    p1.charge = 1000;
    p2.charge = 1000;
    let like = electric_force(&p1, &p2, 100_000, 0);
    assert!(like.x < 0, "like charges repel: force on p1 points away from p2");
    p2.charge = -1000;
    let unlike = electric_force(&p1, &p2, 100_000, 0);
    assert!(unlike.x > 0, "unlike charges attract");
    assert_eq!(like.x, -unlike.x);
    // The damping softener shrinks the magnitude the same way in both
    // directions: the repulsive force is the exact mirror of the
    // attractive one.
    p2.charge = 1000;
    let like_damped = electric_force(&p1, &p2, 100_000, 500);
    p2.charge = -1000;
    let unlike_damped = electric_force(&p1, &p2, 100_000, 500);
    assert_eq!(like_damped.x, -unlike_damped.x);
    assert!(like_damped.x.abs() < like.x.abs(), "damping softens repulsion too");
}

#[test]
fn collision_detection_by_radius() {
    let p1 = particle(Vec3::new(0, 0, 0), Vec3::new(0, 0, 0), 1000).unwrap();
    let near = particle(Vec3::new(1999, 0, 0), Vec3::new(0, 0, 0), 1000).unwrap();
    let far = particle(Vec3::new(2000, 0, 0), Vec3::new(0, 0, 0), 1000).unwrap();
    // Default radius is 1.0 each: colliding strictly below distance 2.0.
    assert!(are_colliding(&p1, &near));
    assert!(!are_colliding(&p1, &far));
}

#[test]
fn collision_impulse_head_on() {
    let mut p1 = particle(Vec3::new(0, 0, 0), Vec3::new(1000, 0, 0), 1000).unwrap();
    let mut p2 = particle(Vec3::new(1500, 0, 0), Vec3::new(-1000, 0, 0), 1000).unwrap();
    p1.momentum = Vec3::new(1000, 0, 0);
    p2.momentum = Vec3::new(-1000, 0, 0);
    // Equal masses, closing speed 2.0 along x, restitution 0.98:
    // impulse = (1 + 0.98) * m_reduced * impact = 1.98 * 0.5 * (-2.0).
    let imp = calc_collision_imp(&p1, &p2, 980);
    assert_eq!(imp.x, -1980);
    assert_eq!(imp.y, 0);
    assert_eq!(imp.z, 0);
}

#[test]
fn momentum_conserved_over_steps() {
    let mut ps = vec![
        particle(Vec3::new(0, 0, 0), Vec3::new(500, -200, 90), 1000).unwrap(),
        particle(Vec3::new(20_000, 3_000, -4_000), Vec3::new(-100, 80, 0), 3000).unwrap(),
        particle(Vec3::new(-9_000, 12_000, 6_000), Vec3::new(0, 0, -350), 700).unwrap(),
    ];
    let before = momentum_sums(&ps);
    let cfg = ForceConfig { gravity: 2_000_000, dampen: 500, restitution: 980 };
    for _ in 0..50 {
        step_particles(&mut ps, &cfg, 10).unwrap();
    }
    let after = momentum_sums(&ps);
    assert_eq!(before, after, "total momentum is conserved exactly");
}

#[test]
fn impulses_sum_to_zero() {
    let ps = vec![
        particle(Vec3::new(0, 0, 0), Vec3::new(0, 0, 0), 1000).unwrap(),
        particle(Vec3::new(5_000, 1_000, 0), Vec3::new(0, 0, 0), 2000).unwrap(),
        particle(Vec3::new(-3_000, 4_000, 2_000), Vec3::new(0, 0, 0), 1500).unwrap(),
    ];
    let cfg = ForceConfig { gravity: 1_000_000, dampen: 0, restitution: 900 };
    let dps = accumulate_impulses(&ps, &cfg, 10);
    let mut sx: i64 = 0;
    let mut sy: i64 = 0;
    let mut sz: i64 = 0;
    for d in &dps {
        sx += d.x;
        sy += d.y;
        sz += d.z;
    }
    assert_eq!((sx, sy, sz), (0, 0, 0));
}

#[test]
fn runaway_step_reports_instability() {
    // A force at the fixed-point cap over a long timestep asks for a larger
    // momentum than the working range holds: the step must refuse whole.
    let mut ps = vec![
        particle(Vec3::new(0, 0, 0), Vec3::new(0, 0, 0), 1_000_000).unwrap(),
        particle(Vec3::new(10_000, 0, 0), Vec3::new(0, 0, 0), 1_000_000).unwrap(),
    ];
    let before = ps.clone();
    let cfg = ForceConfig { gravity: 100_000, dampen: 0, restitution: 0 };
    let r = step_particles(&mut ps, &cfg, 10_000);
    assert_eq!(r, Err(SimError::NumericalInstability));
    assert_eq!(ps, before, "a refused step changes nothing");
}

#[test]
fn apply_impulses_moves_by_new_momentum() {
    let mut ps = vec![particle(Vec3::new(0, 0, 0), Vec3::new(0, 0, 0), 1000).unwrap()];
    let dps = vec![Vec3::new(2_000, 0, 0)];
    apply_impulses(&mut ps, &dps, 1_000).unwrap();
    assert_eq!(ps[0].momentum, Vec3::new(2_000, 0, 0));
    // Position advances by the updated velocity (2.0) times dt (1.0).
    assert_eq!(ps[0].pos, Vec3::new(2_000, 0, 0));
}

#[test]
fn translate_moves_only_position() {
    let mut p = particle(Vec3::new(1, 2, 3), Vec3::new(4, 5, 6), 1000).unwrap();
    translate(&mut p, 10, -20, 30);
    assert_eq!(p.pos, Vec3::new(11, -18, 33));
    assert_eq!(p.momentum, Vec3::new(4, 5, 6));
}

#[test]
fn particle_rejects_bad_mass() {
    assert_eq!(
        particle(Vec3::new(0, 0, 0), Vec3::new(0, 0, 0), 0),
        Err(SimError::InvalidConfiguration)
    );
    assert_eq!(
        particle(Vec3::new(0, 0, 0), Vec3::new(0, 0, 0), -5),
        Err(SimError::InvalidConfiguration)
    );
    assert!(particle(Vec3::new(0, 0, 0), Vec3::new(0, 0, 0), 1).is_ok());
}

#[test]
fn energy_not_created_two_body() {
    // Two bodies under mutual gravity from rest: kinetic plus potential
    // energy, measured in floating point from the fixed-point state, must
    // not grow beyond a small tolerance as the system evolves.
    let mut ps = vec![
        particle(Vec3::new(-50_000, 0, 0), Vec3::new(0, 0, 0), 1000).unwrap(),
        particle(Vec3::new(50_000, 0, 0), Vec3::new(0, 0, 0), 1000).unwrap(),
    ];
    let cfg = ForceConfig { gravity: 100_000, dampen: 0, restitution: 1000 };
    let g = 100.0f64;
    let energy = |ps: &[Particle]| -> f64 {
        let mut e = 0.0f64;
        for p in ps {
            let px = p.momentum.x as f64 / 1000.0;
            let py = p.momentum.y as f64 / 1000.0;
            let pz = p.momentum.z as f64 / 1000.0;
            let m = p.mass as f64 / 1000.0;
            e += (px * px + py * py + pz * pz) / (2.0 * m);
        }
        let dx = (ps[1].pos.x - ps[0].pos.x) as f64 / 1000.0;
        let dy = (ps[1].pos.y - ps[0].pos.y) as f64 / 1000.0;
        let dz = (ps[1].pos.z - ps[0].pos.z) as f64 / 1000.0;
        let r = (dx * dx + dy * dy + dz * dz).sqrt();
        e - g * 1.0 * 1.0 / r
    };
    let e0 = energy(&ps);
    let mut max_e = e0;
    for _ in 0..200 {
        step_particles(&mut ps, &cfg, 10).unwrap();
        let e = energy(&ps);
        if e > max_e {
            max_e = e;
        }
    }
    assert!(
        max_e <= e0 + 0.05 * e0.abs() + 0.01,
        "energy grew from {} to {}",
        e0,
        max_e
    );
}
