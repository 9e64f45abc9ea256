//! Time integration: the entity state the integrator advances, the
//! derivative it evaluates, and the classical fourth-order Runge-Kutta
//! scheme over the force-generator set. Each sub-evaluation re-runs the full
//! force accumulation at the perturbed state, and the four stage derivatives
//! are combined with weights 1, 2, 2, 1 over 6; the update pair is handed
//! back whole, to be applied atomically.

use crate::error::SimError;
use crate::fixed::{div_tz, fx_div_spec, fx_mul_spec, SCALE};
use crate::nbody::DT_LIM;
use crate::physics::{accumulate_spec, calc_acceleration, gen_wf, ForceGenerator};
use crate::shapes::W_LIM;
use crate::vec2::{in_lim, Vec2, VEC_LIM};
use vstd::prelude::*;

verus! {

/// The state the integrator reads and advances for one entity.
#[derive(Clone, Copy, Debug, PartialEq, Eq, Structural)]
pub struct EntityState {
    pub velocity: Vec2,
    pub position: Vec2,
    pub mass: i64,
}

/// An integrator can work with any positive, in-range mass; positions and
/// velocities may leave the world range mid-evaluation (the generators
/// guard themselves).
pub open spec fn entity_wf(s: EntityState) -> bool {
    1 <= s.mass <= W_LIM
}

impl Default for EntityState {
    /// The zero state with unit mass.
    fn default() -> (r: EntityState)
        ensures
            r == (EntityState {
                velocity: Vec2 { x: 0, y: 0 },
                position: Vec2 { x: 0, y: 0 },
                mass: SCALE,
            }),
    {
        EntityState { velocity: Vec2 { x: 0, y: 0 }, position: Vec2 { x: 0, y: 0 }, mass: SCALE }
    }
}

/// A stage derivative: velocity (`dx`) and acceleration (`dv`).
#[derive(Clone, Copy, Debug, PartialEq, Eq, Structural)]
pub struct Derivative {
    pub dv: Vec2,
    pub dx: Vec2,
}

impl Default for Derivative {
    /// The zero derivative, the seed of the first stage.
    fn default() -> (r: Derivative)
        ensures
            r == (Derivative { dv: Vec2 { x: 0, y: 0 }, dx: Vec2 { x: 0, y: 0 } }),
    {
        Derivative { dv: Vec2 { x: 0, y: 0 }, dx: Vec2 { x: 0, y: 0 } }
    }
}

/// Bound on a stage acceleration: force range times `SCALE` over unit mass.
pub const ACCEL_LIM: i64 = 2_000_000_000_000;

/// Bound on a stage velocity: the world velocity range plus one
/// acceleration integrated over the longest timestep.
pub const STAGE_LIM: i64 = 22_000_000_000_000;

/// The net force after threading the zero force through the first `n`
/// generators in order.
pub open spec fn net_force_spec(state: EntityState, gens: Seq<ForceGenerator>, n: int) -> Vec2
    decreases n,
{
    if n <= 0 {
        Vec2 { x: 0, y: 0 }
    } else {
        accumulate_spec(gens[n - 1], state, net_force_spec(state, gens, n - 1))
    }
}

/// The net acceleration: the net force over the entity's mass.
pub open spec fn net_accel_spec(state: EntityState, gens: Seq<ForceGenerator>) -> Vec2 {
    let f = net_force_spec(state, gens, gens.len() as int);
    Vec2 {
        x: fx_div_spec(f.x as int, state.mass as int) as i64,
        y: fx_div_spec(f.y as int, state.mass as int) as i64,
    }
}

/// Accumulate every generator's contribution and divide by the mass.
fn calculate_net_acceleration(
    state: &EntityState,
    forces: &Vec<ForceGenerator>,
    _t: i64,
) -> (r: Vec2)
    requires
        entity_wf(*state),
        forall|k: int| 0 <= k < forces@.len() ==> gen_wf(#[trigger] forces@[k]),
    ensures
        r == net_accel_spec(*state, forces@),
        in_lim(r, ACCEL_LIM as int),
{
    let mut net = Vec2 { x: 0, y: 0 };
    let n: usize = forces.len();
    let mut i: usize = 0;
    while i < n
        invariant
            n == forces@.len(),
            i <= n,
            entity_wf(*state),
            forall|k: int| 0 <= k < forces@.len() ==> gen_wf(#[trigger] forces@[k]),
            net == net_force_spec(*state, forces@, i as int),
            in_lim(net, VEC_LIM as int),
        decreases n - i,
    {
        net = forces[i].accumulate(state, &net);
        i = i + 1;
    }
    proof {
        crate::fixed::lemma_div_tz_bounds(net.x * SCALE, state.mass as int);
        crate::fixed::lemma_div_tz_bounds(net.y * SCALE, state.mass as int);
    }
    let r = calc_acceleration(&net, state.mass);
    proof {
        assert(-ACCEL_LIM * (state.mass as int) <= net.x * SCALE <= ACCEL_LIM * (state.mass as int)
            && -ACCEL_LIM * (state.mass as int) <= net.y * SCALE <= ACCEL_LIM * (
        state.mass as int)) by (nonlinear_arith)
            requires
                -2_000_000_000 <= net.x <= 2_000_000_000,
                -2_000_000_000 <= net.y <= 2_000_000_000,
                1 <= state.mass,
                ACCEL_LIM == 2_000_000_000_000,
                SCALE == 1000,
        ;
        crate::vec2::lemma_div_mag_le(net.x * SCALE, state.mass as int, ACCEL_LIM as int);
        crate::vec2::lemma_div_mag_le(net.y * SCALE, state.mass as int, ACCEL_LIM as int);
    }
    r
}

/// What one Runge-Kutta stage yields: the state perturbed along the
/// incoming derivative for `dt`, whose velocity becomes the stage velocity
/// and whose re-accumulated acceleration becomes the stage acceleration.
pub open spec fn evaluate_spec(
    initial: EntityState,
    derivative: Derivative,
    gens: Seq<ForceGenerator>,
    dt: int,
) -> Derivative {
    let pos = Vec2 {
        x: (initial.position.x + fx_mul_spec(derivative.dx.x as int, dt)) as i64,
        y: (initial.position.y + fx_mul_spec(derivative.dx.y as int, dt)) as i64,
    };
    let vel = Vec2 {
        x: (initial.velocity.x + fx_mul_spec(derivative.dv.x as int, dt)) as i64,
        y: (initial.velocity.y + fx_mul_spec(derivative.dv.y as int, dt)) as i64,
    };
    let perturbed = EntityState { velocity: vel, position: pos, mass: initial.mass };
    Derivative { dv: net_accel_spec(perturbed, gens), dx: vel }
}

/// The available time-integration schemes.
pub enum TimeIntegrator {
    SemiImplicitEuler,
    RungeKutta,
}

/// The classical fourth-order Runge-Kutta integrator, carrying its
/// timestep.
pub struct RungeKuttaIntegrator {
    /// The fixed timestep, in fixed-point seconds; kept in `[1, DT_LIM]`
    /// by the constructor and the setters.
    pub dt: i64,
}

/// What `integrate` returns: the weighted stage combination
/// `(f1 + 2*f2 + 2*f3 + f4) * dt / 6`, for the position and the velocity.
pub open spec fn integrate_spec(state: EntityState, gens: Seq<ForceGenerator>, dt: int) -> (
    Vec2,
    Vec2,
) {
    let f1 = evaluate_spec(
        state,
        Derivative { dv: Vec2 { x: 0, y: 0 }, dx: Vec2 { x: 0, y: 0 } },
        gens,
        0,
    );
    let f2 = evaluate_spec(state, f1, gens, div_tz(dt, 2));
    let f3 = evaluate_spec(state, f2, gens, div_tz(dt, 2));
    let f4 = evaluate_spec(state, f3, gens, dt);
    let xs = f1.dx.x + 2 * f2.dx.x + 2 * f3.dx.x + f4.dx.x;
    let ys = f1.dx.y + 2 * f2.dx.y + 2 * f3.dx.y + f4.dx.y;
    let vxs = f1.dv.x + 2 * f2.dv.x + 2 * f3.dv.x + f4.dv.x;
    let vys = f1.dv.y + 2 * f2.dv.y + 2 * f3.dv.y + f4.dv.y;
    (
        Vec2 {
            x: div_tz(fx_mul_spec(xs, dt), 6) as i64,
            y: div_tz(fx_mul_spec(ys, dt), 6) as i64,
        },
        Vec2 {
            x: div_tz(fx_mul_spec(vxs, dt), 6) as i64,
            y: div_tz(fx_mul_spec(vys, dt), 6) as i64,
        },
    )
}

/// A generator set that forms a uniform field: every generator is a
/// directed constant field, so no contribution reads the entity's position
/// or velocity.
pub open spec fn uniform_field_gens(gens: Seq<ForceGenerator>) -> bool {
    forall|k: int| 0 <= k < gens.len() ==> (#[trigger] gens[k]) is Object
}

/// Under a uniform field the accumulated force depends only on the
/// entity's mass, not on its position or velocity.
proof fn lemma_uniform_net_force(
    s1: EntityState,
    s2: EntityState,
    gens: Seq<ForceGenerator>,
    n: int,
)
    requires
        uniform_field_gens(gens),
        s1.mass == s2.mass,
        n <= gens.len(),
    ensures
        net_force_spec(s1, gens, n) == net_force_spec(s2, gens, n),
    decreases n,
{
    if n > 0 {
        lemma_uniform_net_force(s1, s2, gens, n - 1);
    }
}

/// Under a uniform field the net acceleration is the same at every
/// perturbed state of the same mass.
proof fn lemma_uniform_accel(s1: EntityState, s2: EntityState, gens: Seq<ForceGenerator>)
    requires
        uniform_field_gens(gens),
        s1.mass == s2.mass,
    ensures
        net_accel_spec(s1, gens) == net_accel_spec(s2, gens),
{
    lemma_uniform_net_force(s1, s2, gens, gens.len() as int);
}

/// Under a uniform field every Runge-Kutta stage reports the same
/// acceleration: the field's, at the initial state.
proof fn lemma_evaluate_uniform(
    initial: EntityState,
    derivative: Derivative,
    gens: Seq<ForceGenerator>,
    dt: int,
)
    requires
        uniform_field_gens(gens),
    ensures
        evaluate_spec(initial, derivative, gens, dt).dv == net_accel_spec(initial, gens),
{
    let pos = Vec2 {
        x: (initial.position.x + fx_mul_spec(derivative.dx.x as int, dt)) as i64,
        y: (initial.position.y + fx_mul_spec(derivative.dx.y as int, dt)) as i64,
    };
    let vel = Vec2 {
        x: (initial.velocity.x + fx_mul_spec(derivative.dv.x as int, dt)) as i64,
        y: (initial.velocity.y + fx_mul_spec(derivative.dv.y as int, dt)) as i64,
    };
    let perturbed = EntityState { velocity: vel, position: pos, mass: initial.mass };
    lemma_uniform_accel(perturbed, initial, gens);
}

/// Constant-acceleration kinematics, the velocity half, exact in fixed
/// point: under a uniform field all four stage accelerations coincide, the
/// 1-2-2-1 weights sum to six, and the division by six cancels, so the
/// Runge-Kutta velocity update is exactly the field acceleration times the
/// timestep. (The position update combines the four stage velocities,
/// which round independently at the half-steps; it is pinned by
/// `integrate_spec` itself and checked on concrete scenes.)
pub proof fn lemma_rk4_uniform_field_velocity(
    state: EntityState,
    gens: Seq<ForceGenerator>,
    dt: int,
)
    requires
        uniform_field_gens(gens),
    ensures
        ({
            let a = net_accel_spec(state, gens);
            integrate_spec(state, gens, dt).1 == Vec2 {
                x: fx_mul_spec(a.x as int, dt) as i64,
                y: fx_mul_spec(a.y as int, dt) as i64,
            }
        }),
{
    let a = net_accel_spec(state, gens);
    let zero = Derivative { dv: Vec2 { x: 0, y: 0 }, dx: Vec2 { x: 0, y: 0 } };
    let f1 = evaluate_spec(state, zero, gens, 0);
    let f2 = evaluate_spec(state, f1, gens, div_tz(dt, 2));
    let f3 = evaluate_spec(state, f2, gens, div_tz(dt, 2));
    let f4 = evaluate_spec(state, f3, gens, dt);
    lemma_evaluate_uniform(state, zero, gens, 0);
    lemma_evaluate_uniform(state, f1, gens, div_tz(dt, 2));
    lemma_evaluate_uniform(state, f2, gens, div_tz(dt, 2));
    lemma_evaluate_uniform(state, f3, gens, dt);
    assert(f1.dv == a && f2.dv == a && f3.dv == a && f4.dv == a);
    let vxs = f1.dv.x + 2 * f2.dv.x + 2 * f3.dv.x + f4.dv.x;
    let vys = f1.dv.y + 2 * f2.dv.y + 2 * f3.dv.y + f4.dv.y;
    assert(vxs == 6 * a.x && vys == 6 * a.y);
    assert((6 * a.x) * dt == 6 * (a.x * dt) && (6 * a.y) * dt == 6 * (a.y * dt) && (SCALE as int)
        * 6 == 6 * (SCALE as int)) by (nonlinear_arith);
    crate::fixed::lemma_div_tz_denominator(6 * (a.x * dt), SCALE as int, 6);
    crate::fixed::lemma_div_tz_denominator(6 * (a.y * dt), SCALE as int, 6);
    crate::fixed::lemma_div_tz_cancel(6, a.x * dt, SCALE as int);
    crate::fixed::lemma_div_tz_cancel(6, a.y * dt, SCALE as int);
    assert(div_tz(fx_mul_spec(vxs, dt), 6) == fx_mul_spec(a.x as int, dt));
    assert(div_tz(fx_mul_spec(vys, dt), 6) == fx_mul_spec(a.y as int, dt));
}

impl RungeKuttaIntegrator {
    /// Build an integrator; a non-positive or over-long timestep is
    /// rejected outright.
    pub fn new(dt: i64) -> (r: Result<RungeKuttaIntegrator, SimError>)
        ensures
            (r is Ok) == (1 <= dt <= DT_LIM),
            r matches Ok(s) ==> s.dt == dt,
            r matches Err(e) ==> e is InvalidConfiguration,
    {
        if dt < 1 || dt > DT_LIM {
            return Err(SimError::InvalidConfiguration);
        }
        Ok(RungeKuttaIntegrator { dt })
    }

    /// One Runge-Kutta stage.
    pub fn evaluate(
        initial: &EntityState,
        derivative: &Derivative,
        forces: &Vec<ForceGenerator>,
        _t: i64,
        dt: i64,
    ) -> (r: Derivative)
        requires
            entity_wf(*initial),
            forall|k: int| 0 <= k < forces@.len() ==> gen_wf(#[trigger] forces@[k]),
            in_lim(initial.position, W_LIM as int),
            in_lim(initial.velocity, W_LIM as int),
            in_lim(derivative.dv, ACCEL_LIM as int),
            in_lim(derivative.dx, STAGE_LIM as int),
            0 <= dt <= DT_LIM,
        ensures
            r == evaluate_spec(*initial, *derivative, forces@, dt as int),
            in_lim(r.dv, ACCEL_LIM as int),
            in_lim(r.dx, STAGE_LIM as int),
    {
        proof {
            assert(-220_000_000_000_000_000 <= derivative.dx.x * dt <= 220_000_000_000_000_000
                && -220_000_000_000_000_000 <= derivative.dx.y * dt <= 220_000_000_000_000_000
                && -20_000_000_000_000_000 <= derivative.dv.x * dt <= 20_000_000_000_000_000
                && -20_000_000_000_000_000 <= derivative.dv.y * dt
                <= 20_000_000_000_000_000) by (nonlinear_arith)
                requires
                    -22_000_000_000_000 <= derivative.dx.x <= 22_000_000_000_000,
                    -22_000_000_000_000 <= derivative.dx.y <= 22_000_000_000_000,
                    -2_000_000_000_000 <= derivative.dv.x <= 2_000_000_000_000,
                    -2_000_000_000_000 <= derivative.dv.y <= 2_000_000_000_000,
                    0 <= dt <= 10_000,
            ;
            crate::vec2::lemma_div_mag_le(derivative.dx.x * dt, SCALE as int, 220_000_000_000_000);
            crate::vec2::lemma_div_mag_le(derivative.dx.y * dt, SCALE as int, 220_000_000_000_000);
            crate::vec2::lemma_div_mag_le(derivative.dv.x * dt, SCALE as int, 20_000_000_000_000);
            crate::vec2::lemma_div_mag_le(derivative.dv.y * dt, SCALE as int, 20_000_000_000_000);
        }
        let px: i64 = initial.position.x + crate::fixed::fx_mul_wide(derivative.dx.x, dt);
        let py: i64 = initial.position.y + crate::fixed::fx_mul_wide(derivative.dx.y, dt);
        let vx: i64 = initial.velocity.x + crate::fixed::fx_mul_wide(derivative.dv.x, dt);
        let vy: i64 = initial.velocity.y + crate::fixed::fx_mul_wide(derivative.dv.y, dt);
        let perturbed = EntityState {
            velocity: Vec2 { x: vx, y: vy },
            position: Vec2 { x: px, y: py },
            mass: initial.mass,
        };
        let dv = calculate_net_acceleration(&perturbed, forces, _t);
        Derivative { dv, dx: Vec2 { x: vx, y: vy } }
    }

    /// One full Runge-Kutta step: four stage evaluations combined with
    /// weights 1, 2, 2, 1 over 6, times the timestep. Returns the position
    /// update and the velocity update, to be applied together.
    pub fn integrate(&self, state: &EntityState, forces: &Vec<ForceGenerator>, t: i64) -> (r: (
        Vec2,
        Vec2,
    ))
        requires
            entity_wf(*state),
            forall|k: int| 0 <= k < forces@.len() ==> gen_wf(#[trigger] forces@[k]),
            in_lim(state.position, W_LIM as int),
            in_lim(state.velocity, W_LIM as int),
            1 <= self.dt <= DT_LIM,
        ensures
            r.0 == integrate_spec(*state, forces@, self.dt as int).0,
            r.1 == integrate_spec(*state, forces@, self.dt as int).1,
    {
        let zero = Derivative { dv: Vec2 { x: 0, y: 0 }, dx: Vec2 { x: 0, y: 0 } };
        let half: i64 = crate::fixed::div_i64(self.dt, 2);
        proof {
            crate::fixed::lemma_div_tz_bounds(self.dt as int, 2);
        }
        let f1 = Self::evaluate(state, &zero, forces, t, 0);
        let f2 = Self::evaluate(state, &f1, forces, t, half);
        let f3 = Self::evaluate(state, &f2, forces, t, half);
        let f4 = Self::evaluate(state, &f3, forces, t, self.dt);
        let xs: i64 = f1.dx.x + 2 * f2.dx.x + 2 * f3.dx.x + f4.dx.x;
        let ys: i64 = f1.dx.y + 2 * f2.dx.y + 2 * f3.dx.y + f4.dx.y;
        let vxs: i64 = f1.dv.x + 2 * f2.dv.x + 2 * f3.dv.x + f4.dv.x;
        let vys: i64 = f1.dv.y + 2 * f2.dv.y + 2 * f3.dv.y + f4.dv.y;
        proof {
            assert(-1_320_000_000_000_000_000 <= xs * self.dt <= 1_320_000_000_000_000_000
                && -1_320_000_000_000_000_000 <= ys * self.dt <= 1_320_000_000_000_000_000
                && -120_000_000_000_000_000 <= vxs * self.dt <= 120_000_000_000_000_000
                && -120_000_000_000_000_000 <= vys * self.dt
                <= 120_000_000_000_000_000) by (nonlinear_arith)
                requires
                    -132_000_000_000_000 <= xs <= 132_000_000_000_000,
                    -132_000_000_000_000 <= ys <= 132_000_000_000_000,
                    -12_000_000_000_000 <= vxs <= 12_000_000_000_000,
                    -12_000_000_000_000 <= vys <= 12_000_000_000_000,
                    1 <= self.dt <= 10_000,
            ;
        }
        let wx: i64 = crate::fixed::fx_mul_wide(xs, self.dt);
        let wy: i64 = crate::fixed::fx_mul_wide(ys, self.dt);
        let wvx: i64 = crate::fixed::fx_mul_wide(vxs, self.dt);
        let wvy: i64 = crate::fixed::fx_mul_wide(vys, self.dt);
        (
            Vec2 { x: crate::fixed::div_i64(wx, 6), y: crate::fixed::div_i64(wy, 6) },
            Vec2 { x: crate::fixed::div_i64(wvx, 6), y: crate::fixed::div_i64(wvy, 6) },
        )
    }

    /// Replace the timestep; out-of-range values are rejected.
    pub fn set_dt(&mut self, new_dt: i64) -> (r: Result<(), SimError>)
        ensures
            (r is Ok) == (1 <= new_dt <= DT_LIM),
            r is Ok ==> final(self).dt == new_dt,
            r is Err ==> final(self).dt == old(self).dt,
            r matches Err(e) ==> e is InvalidConfiguration,
    {
        if new_dt < 1 || new_dt > DT_LIM {
            return Err(SimError::InvalidConfiguration);
        }
        self.dt = new_dt;
        Ok(())
    }

    /// The current timestep.
    pub fn dt(&self) -> (r: i64)
        ensures
            r == self.dt,
    {
        self.dt
    }

    /// Double the timestep, capped so the catch-up loop stays sound.
    pub fn increase_dt(&mut self)
        requires
            1 <= old(self).dt <= DT_LIM,
        ensures
            final(self).dt == (if 2 * old(self).dt <= DT_LIM {
                2 * old(self).dt
            } else {
                DT_LIM as int
            }),
            1 <= final(self).dt <= DT_LIM,
    {
        if self.dt <= 5_000 {
            self.dt = self.dt * 2;
        } else {
            self.dt = DT_LIM;
        }
    }

    /// Halve the timestep, bounded away from zero.
    pub fn decrease_dt(&mut self)
        requires
            1 <= old(self).dt <= DT_LIM,
        ensures
            final(self).dt == (if old(self).dt / 2 >= 1 {
                old(self).dt / 2
            } else {
                1
            }),
            1 <= final(self).dt <= DT_LIM,
    {
        let h: i64 = crate::fixed::div_i64(self.dt, 2);
        self.dt = if h >= 1 {
            h
        } else {
            1
        };
    }
}

} // verus!
