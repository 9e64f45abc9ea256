//! A two-node damped spring in three dimensions. Nodes reference coupling
//! partners by index into a shared node pool, never by mutable reference,
//! so spring graphs stay free of ownership cycles. Each step is
//! semi-implicit: forces and velocities first, then positions from the
//! updated velocities.

use crate::error::SimError;
use crate::fixed::{
    div_tz, fits_i64, fx_div_spec, fx_mul, fx_mul_spec, fx_mul_wide, isqrt, FX_LIM, SCALE,
};
use crate::nbody::DT_LIM;
use crate::particle::P_LIM;
use crate::vec2::{isqrt_spec, lemma_isqrt_witness};
use crate::vec3::{in_lim3, norm3_spec, unit3_spec, Vec3};
use vstd::prelude::*;

verus! {

/// Largest force component a spring node carries; one step's impulse from
/// it still fits the fixed-point range.
pub const SF_LIM: i64 = 900_000_000_000_000;

/// Largest stiffness and damping coefficient a spring accepts.
pub const STIFF_LIM: i64 = 100_000_000;

/// An endpoint of a spring: a point mass with an accumulated force and a
/// list of coupled partner nodes, by index into a node pool.
#[derive(Clone, Debug, PartialEq, Eq)]
pub struct SpringNode {
    pub pos: Vec3,
    pub vel: Vec3,
    pub force: Vec3,
    pub coupled: Vec<usize>,
    pub mass: i64,
}

/// Well-formed node: positive mass, state in the working range, force in
/// the force range, a bounded coupling list.
pub open spec fn node_wf(n: SpringNode) -> bool {
    &&& 1 <= n.mass <= P_LIM
    &&& in_lim3(n.pos, P_LIM as int)
    &&& in_lim3(n.vel, P_LIM as int)
    &&& in_lim3(n.force, SF_LIM as int)
    &&& n.coupled@.len() <= 1000
}

impl SpringNode {
    /// Couple this node to the pool node at `index`.
    pub fn couple(&mut self, index: usize)
        requires
            old(self).coupled@.len() < 1000,
        ensures
            final(self).coupled@ == old(self).coupled@.push(index),
            final(self).pos == old(self).pos,
            final(self).vel == old(self).vel,
            final(self).force == old(self).force,
            final(self).mass == old(self).mass,
    {
        self.coupled.push(index);
    }
}

/// A spring between two owned nodes.
#[derive(Clone, Debug, PartialEq, Eq)]
pub struct Spring {
    pub node_1: SpringNode,
    pub node_2: SpringNode,
    pub stiffness: i64,
    pub dampen: i64,
    pub length: i64,
}

/// Well-formed spring: both nodes well-formed and the coefficients in
/// range.
pub open spec fn spring_wf(s: Spring) -> bool {
    &&& node_wf(s.node_1)
    &&& node_wf(s.node_2)
    &&& 0 <= s.stiffness <= STIFF_LIM
    &&& 0 <= s.dampen <= STIFF_LIM
    &&& 0 <= s.length <= P_LIM
}

/// What the spring force pass stores in the two nodes: the restoring force
/// `-stiffness * (current_length - rest_length)` along the axis, minus the
/// speed-proportional damping term, applied with opposite signs to the two
/// ends (`node_1` takes the positive direction). Coincident nodes leave
/// both forces zero.
pub open spec fn spring_force_spec(s: Spring) -> (Vec3, Vec3) {
    let rx = s.node_2.pos.x - s.node_1.pos.x;
    let ry = s.node_2.pos.y - s.node_1.pos.y;
    let rz = s.node_2.pos.z - s.node_1.pos.z;
    if rx == 0 && ry == 0 && rz == 0 {
        (Vec3 { x: 0, y: 0, z: 0 }, Vec3 { x: 0, y: 0, z: 0 })
    } else {
        let r = Vec3 { x: rx as i64, y: ry as i64, z: rz as i64 };
        let u = unit3_spec(r);
        let stretch = norm3_spec(r) - s.length;
        let restoring = fx_mul_spec(s.stiffness as int, stretch);
        let speeds = norm3_spec(s.node_1.vel) + norm3_spec(s.node_2.vel);
        let damping = fx_mul_spec(s.dampen as int, speeds);
        let coef = restoring + damping;
        let f2 = Vec3 {
            x: (-fx_mul_spec(u.x as int, coef)) as i64,
            y: (-fx_mul_spec(u.y as int, coef)) as i64,
            z: (-fx_mul_spec(u.z as int, coef)) as i64,
        };
        (
            Vec3 { x: fx_mul_spec(u.x as int, coef) as i64, y: fx_mul_spec(u.y as int, coef) as i64, z: fx_mul_spec(u.z as int, coef) as i64 },
            f2,
        )
    }
}

impl Spring {
    /// Build a spring; non-positive mass, negative coefficients or
    /// out-of-range state are rejected outright.
    pub fn new(
        stiffness: i64,
        length: i64,
        pos_1: Vec3,
        pos_2: Vec3,
        vel_1: Vec3,
        vel_2: Vec3,
        mass: i64,
        dampen: i64,
    ) -> (r: Result<Spring, SimError>)
        ensures
            (r is Ok) == (1 <= mass <= P_LIM && 0 <= stiffness <= STIFF_LIM && 0 <= dampen
                <= STIFF_LIM && 0 <= length <= P_LIM && in_lim3(pos_1, P_LIM as int) && in_lim3(
                pos_2,
                P_LIM as int,
            ) && in_lim3(vel_1, P_LIM as int) && in_lim3(vel_2, P_LIM as int)),
            r matches Ok(s) ==> s.node_1.pos == pos_1 && s.node_1.vel == vel_1 && s.node_1.force
                == (Vec3 { x: 0, y: 0, z: 0 }) && s.node_1.coupled@ == Seq::<usize>::empty()
                && s.node_1.mass == mass && s.node_2.pos == pos_2 && s.node_2.vel == vel_2
                && s.node_2.force == (Vec3 { x: 0, y: 0, z: 0 }) && s.node_2.coupled@ == Seq::<
                usize,
            >::empty() && s.node_2.mass == mass && s.stiffness == stiffness && s.dampen == dampen
                && s.length == length && spring_wf(s),
            r matches Err(e) ==> e is InvalidConfiguration,
    {
        if mass < 1 || mass > P_LIM || stiffness < 0 || stiffness > STIFF_LIM || dampen < 0
            || dampen > STIFF_LIM || length < 0 || length > P_LIM || !pos_1.within(P_LIM)
            || !pos_2.within(P_LIM) || !vel_1.within(P_LIM) || !vel_2.within(P_LIM) {
            return Err(SimError::InvalidConfiguration);
        }
        let node_1 = SpringNode {
            pos: pos_1,
            vel: vel_1,
            force: Vec3 { x: 0, y: 0, z: 0 },
            coupled: Vec::new(),
            mass,
        };
        let node_2 = SpringNode {
            pos: pos_2,
            vel: vel_2,
            force: Vec3 { x: 0, y: 0, z: 0 },
            coupled: Vec::new(),
            mass,
        };
        Ok(Spring { node_1, node_2, stiffness, dampen, length })
    }

    /// The default demonstration spring: stiff, slightly damped, ten units
    /// long, with its ends five units either side of the origin.
    pub fn new_default_spring() -> (r: Spring)
        ensures
            r.node_1.pos == (Vec3 { x: -5000i64, y: 0, z: 0 }),
            r.node_2.pos == (Vec3 { x: 5000, y: 0, z: 0 }),
            r.node_1.vel == (Vec3 { x: 0, y: 0, z: 0 }),
            r.node_2.vel == (Vec3 { x: 0, y: 0, z: 0 }),
            r.node_1.force == (Vec3 { x: 0, y: 0, z: 0 }),
            r.node_2.force == (Vec3 { x: 0, y: 0, z: 0 }),
            r.node_1.coupled@ == Seq::<usize>::empty(),
            r.node_2.coupled@ == Seq::<usize>::empty(),
            r.stiffness == 10_000_000,
            r.length == 10_000,
            r.node_1.mass == 1000,
            r.node_2.mass == 1000,
            r.dampen == 10_000,
            spring_wf(r),
    {
        Spring::new(
            10_000_000,
            10_000,
            Vec3 { x: -5000, y: 0, z: 0 },
            Vec3 { x: 5000, y: 0, z: 0 },
            Vec3 { x: 0, y: 0, z: 0 },
            Vec3 { x: 0, y: 0, z: 0 },
            1000,
            10_000,
        ).unwrap()
    }

    /// Recompute the two nodes' spring forces from the current state.
    pub fn spring_force(&mut self)
        requires
            spring_wf(*old(self)),
        ensures
            spring_wf(*final(self)),
            final(self).node_1.force == spring_force_spec(*old(self)).0,
            final(self).node_2.force == spring_force_spec(*old(self)).1,
            final(self).node_2.force.x == -final(self).node_1.force.x,
            final(self).node_2.force.y == -final(self).node_1.force.y,
            final(self).node_2.force.z == -final(self).node_1.force.z,
            final(self).node_1.pos == old(self).node_1.pos,
            final(self).node_2.pos == old(self).node_2.pos,
            final(self).node_1.vel == old(self).node_1.vel,
            final(self).node_2.vel == old(self).node_2.vel,
            final(self).node_1.mass == old(self).node_1.mass,
            final(self).node_2.mass == old(self).node_2.mass,
            final(self).node_1.coupled == old(self).node_1.coupled,
            final(self).node_2.coupled == old(self).node_2.coupled,
            final(self).stiffness == old(self).stiffness,
            final(self).dampen == old(self).dampen,
            final(self).length == old(self).length,
    {
        let r = self.node_2.pos.sub(self.node_1.pos);
        if r.x == 0 && r.y == 0 && r.z == 0 {
            self.node_1.force = Vec3 { x: 0, y: 0, z: 0 };
            self.node_2.force = Vec3 { x: 0, y: 0, z: 0 };
            return ;
        }
        let u = r.unit();
        let stretch: i64 = r.norm() - self.length;
        let restoring: i64 = fx_mul(self.stiffness, stretch);
        proof {
            assert(-300_000_000_000_000 * SCALE <= self.stiffness * stretch
                <= 300_000_000_000_000 * SCALE) by (nonlinear_arith)
                requires
                    0 <= self.stiffness <= 100_000_000,
                    -3_000_000_000 <= stretch <= 3_000_000_000,
                    SCALE == 1000,
            ;
            crate::vec2::lemma_div_mag_le(
                self.stiffness * stretch,
                SCALE as int,
                300_000_000_000_000,
            );
        }
        let speeds: i64 = self.node_1.vel.norm() + self.node_2.vel.norm();
        proof {
            assert(0 <= self.dampen * speeds <= 600_000_000_000_000_000) by (nonlinear_arith)
                requires
                    0 <= self.dampen <= 100_000_000,
                    0 <= speeds <= 6_000_000_000,
            ;
            crate::vec2::lemma_div_mag_le(self.dampen * speeds, SCALE as int, 600_000_000_000_000);
        }
        let damping: i64 = fx_mul_wide(self.dampen, speeds);
        let coef: i64 = restoring + damping;
        proof {
            assert(-900_000_000_000_000_000 <= u.x * coef <= 900_000_000_000_000_000
                && -900_000_000_000_000_000 <= u.y * coef <= 900_000_000_000_000_000
                && -900_000_000_000_000_000 <= u.z * coef
                <= 900_000_000_000_000_000) by (nonlinear_arith)
                requires
                    -1000 <= u.x <= 1000,
                    -1000 <= u.y <= 1000,
                    -1000 <= u.z <= 1000,
                    -900_000_000_000_000 <= coef <= 900_000_000_000_000,
            ;
            crate::vec2::lemma_div_mag_le(u.x * coef, SCALE as int, SF_LIM as int);
            crate::vec2::lemma_div_mag_le(u.y * coef, SCALE as int, SF_LIM as int);
            crate::vec2::lemma_div_mag_le(u.z * coef, SCALE as int, SF_LIM as int);
        }
        let fx2x: i64 = fx_mul_wide(u.x, coef);
        let fx2y: i64 = fx_mul_wide(u.y, coef);
        let fx2z: i64 = fx_mul_wide(u.z, coef);
        self.node_1.force = Vec3 { x: fx2x, y: fx2y, z: fx2z };
        self.node_2.force = Vec3 { x: -fx2x, y: -fx2y, z: -fx2z };
    }
}

/// The force accumulated from the first `n` coupling partners, on top of
/// `base`: each valid partner index adds that pool node's force; an index
/// outside the pool, or a sum leaving the force range, adds nothing.
pub open spec fn coupling_sum_spec(
    nodes: Seq<SpringNode>,
    coupled: Seq<usize>,
    base: Vec3,
    n: int,
) -> Vec3
    decreases n,
{
    if n <= 0 {
        base
    } else {
        let prev = coupling_sum_spec(nodes, coupled, base, n - 1);
        let idx = coupled[n - 1];
        if idx >= nodes.len() {
            prev
        } else {
            let f = nodes[idx as int].force;
            let cx = prev.x + f.x;
            let cy = prev.y + f.y;
            let cz = prev.z + f.z;
            if -SF_LIM <= cx <= SF_LIM && -SF_LIM <= cy <= SF_LIM && -SF_LIM <= cz <= SF_LIM {
                Vec3 { x: cx as i64, y: cy as i64, z: cz as i64 }
            } else {
                prev
            }
        }
    }
}

/// Fold one node's coupling list over the pool.
fn coupling_fold(nodes: &Vec<SpringNode>, coupled: &Vec<usize>, base: Vec3) -> (r: Vec3)
    requires
        forall|k: int| 0 <= k < nodes@.len() ==> node_wf(#[trigger] nodes@[k]),
        in_lim3(base, SF_LIM as int),
    ensures
        r == coupling_sum_spec(nodes@, coupled@, base, coupled@.len() as int),
        in_lim3(r, SF_LIM as int),
{
    let mut cur: Vec3 = base;
    let n: usize = coupled.len();
    let mut i: usize = 0;
    while i < n
        invariant
            n == coupled@.len(),
            i <= n,
            forall|k: int| 0 <= k < nodes@.len() ==> node_wf(#[trigger] nodes@[k]),
            cur == coupling_sum_spec(nodes@, coupled@, base, i as int),
            in_lim3(cur, SF_LIM as int),
        decreases n - i,
    {
        let idx: usize = coupled[i];
        if idx < nodes.len() {
            let f: Vec3 = nodes[idx].force;
            let cx: i64 = cur.x + f.x;
            let cy: i64 = cur.y + f.y;
            let cz: i64 = cur.z + f.z;
            if -SF_LIM <= cx && cx <= SF_LIM && -SF_LIM <= cy && cy <= SF_LIM && -SF_LIM <= cz
                && cz <= SF_LIM {
                cur = Vec3 { x: cx, y: cy, z: cz };
            }
        }
        i = i + 1;
    }
    cur
}

impl Spring {
    /// Add the coupled partners' forces to each node's accumulated force,
    /// reading partner state from the shared node pool.
    pub fn coupling_force(&mut self, nodes: &Vec<SpringNode>)
        requires
            spring_wf(*old(self)),
            forall|k: int| 0 <= k < nodes@.len() ==> node_wf(#[trigger] nodes@[k]),
        ensures
            spring_wf(*final(self)),
            final(self).node_1.force == coupling_sum_spec(
                nodes@,
                old(self).node_1.coupled@,
                old(self).node_1.force,
                old(self).node_1.coupled@.len() as int,
            ),
            final(self).node_2.force == coupling_sum_spec(
                nodes@,
                old(self).node_2.coupled@,
                old(self).node_2.force,
                old(self).node_2.coupled@.len() as int,
            ),
            final(self).node_1 == (SpringNode { force: final(self).node_1.force, ..old(self).node_1 }),
            final(self).node_2 == (SpringNode { force: final(self).node_2.force, ..old(self).node_2 }),
            final(self).stiffness == old(self).stiffness,
            final(self).dampen == old(self).dampen,
            final(self).length == old(self).length,
    {
        let f1 = coupling_fold(nodes, &self.node_1.coupled, self.node_1.force);
        let f2 = coupling_fold(nodes, &self.node_2.coupled, self.node_2.force);
        self.node_1.force = f1;
        self.node_2.force = f2;
    }
}

/// Whether one force impulse leaves the node's velocity inside the working
/// range.
pub open spec fn node_vel_in_range(n: SpringNode, dt: int) -> bool {
    let vx = n.vel.x + fx_div_spec(fx_mul_spec(n.force.x as int, dt), n.mass as int);
    let vy = n.vel.y + fx_div_spec(fx_mul_spec(n.force.y as int, dt), n.mass as int);
    let vz = n.vel.z + fx_div_spec(fx_mul_spec(n.force.z as int, dt), n.mass as int);
    -P_LIM <= vx <= P_LIM && -P_LIM <= vy <= P_LIM && -P_LIM <= vz <= P_LIM
}

/// A node's velocity after one force impulse: each component moves by
/// `force * dt / mass`; if the new velocity would leave the working range,
/// the node keeps its old velocity (the step is skipped whole, never
/// half-applied).
pub open spec fn node_vel_step_spec(n: SpringNode, dt: int) -> Vec3 {
    let vx = n.vel.x + fx_div_spec(fx_mul_spec(n.force.x as int, dt), n.mass as int);
    let vy = n.vel.y + fx_div_spec(fx_mul_spec(n.force.y as int, dt), n.mass as int);
    let vz = n.vel.z + fx_div_spec(fx_mul_spec(n.force.z as int, dt), n.mass as int);
    if node_vel_in_range(n, dt) {
        Vec3 { x: vx as i64, y: vy as i64, z: vz as i64 }
    } else {
        n.vel
    }
}

/// A node's position after one velocity step: each component moves by
/// `velocity * dt`, with the same whole-or-nothing range guard.
pub open spec fn node_pos_step_spec(n: SpringNode, dt: int) -> Vec3 {
    let px = n.pos.x + fx_mul_spec(n.vel.x as int, dt);
    let py = n.pos.y + fx_mul_spec(n.vel.y as int, dt);
    let pz = n.pos.z + fx_mul_spec(n.vel.z as int, dt);
    if -P_LIM <= px <= P_LIM && -P_LIM <= py <= P_LIM && -P_LIM <= pz <= P_LIM {
        Vec3 { x: px as i64, y: py as i64, z: pz as i64 }
    } else {
        n.pos
    }
}

/// One velocity component update for a spring node.
fn node_vel_delta(force: i64, mass: i64, dt: i64) -> (r: i64)
    requires
        -SF_LIM <= force <= SF_LIM,
        1 <= mass,
        1 <= dt <= DT_LIM,
    ensures
        r == fx_div_spec(fx_mul_spec(force as int, dt as int), mass as int),
        -9_000_000_000_000_000_000 <= r <= 9_000_000_000_000_000_000,
{
    proof {
        assert(-9_000_000_000_000_000_000 <= force * dt
            <= 9_000_000_000_000_000_000) by (nonlinear_arith)
            requires
                -900_000_000_000_000 <= force <= 900_000_000_000_000,
                1 <= dt <= 10_000,
        ;
        crate::vec2::lemma_div_mag_le(force * dt, SCALE as int, 9_000_000_000_000_000);
    }
    let dp: i64 = fx_mul_wide(force, dt);
    proof {
        crate::fixed::lemma_div_tz_bounds(dp * SCALE, mass as int);
    }
    crate::fixed::fx_div(dp, mass)
}

impl Spring {
    /// Advance both velocities: recompute the spring forces, fold each
    /// node's coupling forces in once, then integrate each node's momentum.
    pub fn update_vel(&mut self, nodes: &Vec<SpringNode>, dt: i64)
        requires
            spring_wf(*old(self)),
            forall|k: int| 0 <= k < nodes@.len() ==> node_wf(#[trigger] nodes@[k]),
            1 <= dt <= DT_LIM,
        ensures
            spring_wf(*final(self)),
            ({
                let (f1, f2) = spring_force_spec(*old(self));
                let len1 = old(self).node_1.coupled@.len() as int;
                let len2 = old(self).node_2.coupled@.len() as int;
                let g1 = coupling_sum_spec(nodes@, old(self).node_1.coupled@, f1, len1);
                let g2 = coupling_sum_spec(nodes@, old(self).node_2.coupled@, f2, len2);
                &&& final(self).node_1.force == g1
                &&& final(self).node_2.force == g2
                &&& final(self).node_1.vel == node_vel_step_spec(
                    SpringNode { force: g1, ..old(self).node_1 },
                    dt as int,
                )
                &&& final(self).node_2.vel == node_vel_step_spec(
                    SpringNode { force: g2, ..old(self).node_2 },
                    dt as int,
                )
            }),
            final(self).node_1.pos == old(self).node_1.pos,
            final(self).node_2.pos == old(self).node_2.pos,
            final(self).node_1.mass == old(self).node_1.mass,
            final(self).node_2.mass == old(self).node_2.mass,
            final(self).node_1.coupled == old(self).node_1.coupled,
            final(self).node_2.coupled == old(self).node_2.coupled,
            final(self).stiffness == old(self).stiffness,
            final(self).dampen == old(self).dampen,
            final(self).length == old(self).length,
    {
        self.spring_force();
        self.coupling_force(nodes);
        let dvx1: i64 = node_vel_delta(self.node_1.force.x, self.node_1.mass, dt);
        let dvy1: i64 = node_vel_delta(self.node_1.force.y, self.node_1.mass, dt);
        let dvz1: i64 = node_vel_delta(self.node_1.force.z, self.node_1.mass, dt);
        let vx1: i64 = self.node_1.vel.x + dvx1;
        let vy1: i64 = self.node_1.vel.y + dvy1;
        let vz1: i64 = self.node_1.vel.z + dvz1;
        if -P_LIM <= vx1 && vx1 <= P_LIM && -P_LIM <= vy1 && vy1 <= P_LIM && -P_LIM <= vz1 && vz1
            <= P_LIM {
            self.node_1.vel = Vec3 { x: vx1, y: vy1, z: vz1 };
        }
        let dvx2: i64 = node_vel_delta(self.node_2.force.x, self.node_2.mass, dt);
        let dvy2: i64 = node_vel_delta(self.node_2.force.y, self.node_2.mass, dt);
        let dvz2: i64 = node_vel_delta(self.node_2.force.z, self.node_2.mass, dt);
        let vx2: i64 = self.node_2.vel.x + dvx2;
        let vy2: i64 = self.node_2.vel.y + dvy2;
        let vz2: i64 = self.node_2.vel.z + dvz2;
        if -P_LIM <= vx2 && vx2 <= P_LIM && -P_LIM <= vy2 && vy2 <= P_LIM && -P_LIM <= vz2 && vz2
            <= P_LIM {
            self.node_2.vel = Vec3 { x: vx2, y: vy2, z: vz2 };
        }
    }

    /// Advance both positions by their velocities over the timestep.
    pub fn update_pos(&mut self, dt: i64)
        requires
            spring_wf(*old(self)),
            1 <= dt <= DT_LIM,
        ensures
            spring_wf(*final(self)),
            final(self).node_1.pos == node_pos_step_spec(old(self).node_1, dt as int),
            final(self).node_2.pos == node_pos_step_spec(old(self).node_2, dt as int),
            final(self).node_1 == (SpringNode { pos: final(self).node_1.pos, ..old(self).node_1 }),
            final(self).node_2 == (SpringNode { pos: final(self).node_2.pos, ..old(self).node_2 }),
            final(self).stiffness == old(self).stiffness,
            final(self).dampen == old(self).dampen,
            final(self).length == old(self).length,
    {
        proof {
            let v1 = self.node_1.vel;
            let v2 = self.node_2.vel;
            assert(fits_i64(v1.x * dt) && fits_i64(v1.y * dt) && fits_i64(v1.z * dt) && fits_i64(
                v2.x * dt,
            ) && fits_i64(v2.y * dt) && fits_i64(v2.z * dt)) by (nonlinear_arith)
                requires
                    in_lim3(v1, 800_000_000),
                    in_lim3(v2, 800_000_000),
                    1 <= dt <= 10_000,
            ;
        }
        let dx1: i64 = fx_mul_wide(self.node_1.vel.x, dt);
        let dy1: i64 = fx_mul_wide(self.node_1.vel.y, dt);
        let dz1: i64 = fx_mul_wide(self.node_1.vel.z, dt);
        proof {
            crate::fixed::lemma_div_tz_bounds(old(self).node_1.vel.x * dt, SCALE as int);
            crate::fixed::lemma_div_tz_bounds(old(self).node_1.vel.y * dt, SCALE as int);
            crate::fixed::lemma_div_tz_bounds(old(self).node_1.vel.z * dt, SCALE as int);
        }
        let px1: i64 = self.node_1.pos.x + dx1;
        let py1: i64 = self.node_1.pos.y + dy1;
        let pz1: i64 = self.node_1.pos.z + dz1;
        if -P_LIM <= px1 && px1 <= P_LIM && -P_LIM <= py1 && py1 <= P_LIM && -P_LIM <= pz1 && pz1
            <= P_LIM {
            self.node_1.pos = Vec3 { x: px1, y: py1, z: pz1 };
        }
        let dx2: i64 = fx_mul_wide(self.node_2.vel.x, dt);
        let dy2: i64 = fx_mul_wide(self.node_2.vel.y, dt);
        let dz2: i64 = fx_mul_wide(self.node_2.vel.z, dt);
        proof {
            crate::fixed::lemma_div_tz_bounds(old(self).node_2.vel.x * dt, SCALE as int);
            crate::fixed::lemma_div_tz_bounds(old(self).node_2.vel.y * dt, SCALE as int);
            crate::fixed::lemma_div_tz_bounds(old(self).node_2.vel.z * dt, SCALE as int);
        }
        let px2: i64 = self.node_2.pos.x + dx2;
        let py2: i64 = self.node_2.pos.y + dy2;
        let pz2: i64 = self.node_2.pos.z + dz2;
        if -P_LIM <= px2 && px2 <= P_LIM && -P_LIM <= py2 && py2 <= P_LIM && -P_LIM <= pz2 && pz2
            <= P_LIM {
            self.node_2.pos = Vec3 { x: px2, y: py2, z: pz2 };
        }
    }

    /// One semi-implicit spring step: recompute forces and advance the
    /// velocities first, then advance the positions with the updated
    /// velocities, the same order every frame.
    pub fn step_spring(&mut self, dt: i64, nodes: &Vec<SpringNode>)
        requires
            spring_wf(*old(self)),
            forall|k: int| 0 <= k < nodes@.len() ==> node_wf(#[trigger] nodes@[k]),
            1 <= dt <= DT_LIM,
        ensures
            spring_wf(*final(self)),
            ({
                let (f1, f2) = spring_force_spec(*old(self));
                let len1 = old(self).node_1.coupled@.len() as int;
                let len2 = old(self).node_2.coupled@.len() as int;
                let g1 = coupling_sum_spec(nodes@, old(self).node_1.coupled@, f1, len1);
                let g2 = coupling_sum_spec(nodes@, old(self).node_2.coupled@, f2, len2);
                let v1 = node_vel_step_spec(
                    SpringNode { force: g1, ..old(self).node_1 },
                    dt as int,
                );
                let v2 = node_vel_step_spec(
                    SpringNode { force: g2, ..old(self).node_2 },
                    dt as int,
                );
                &&& final(self).node_1.force == g1
                &&& final(self).node_2.force == g2
                &&& final(self).node_1.vel == v1
                &&& final(self).node_2.vel == v2
                &&& final(self).node_1.pos == node_pos_step_spec(
                    SpringNode { force: g1, vel: v1, ..old(self).node_1 },
                    dt as int,
                )
                &&& final(self).node_2.pos == node_pos_step_spec(
                    SpringNode { force: g2, vel: v2, ..old(self).node_2 },
                    dt as int,
                )
            }),
            final(self).stiffness == old(self).stiffness,
            final(self).dampen == old(self).dampen,
            final(self).length == old(self).length,
    {
        self.update_vel(nodes, dt);
        self.update_pos(dt);
    }

    /// The damping ratio `dampen / (2 * sqrt(mass * stiffness))`, zero for
    /// an unsprung (zero-stiffness) system.
    pub fn zeta(&self) -> (r: i64)
        requires
            spring_wf(*self),
        ensures
            r == ({
                let root = isqrt_spec(self.node_1.mass * self.stiffness);
                if root == 0 {
                    0int
                } else {
                    fx_div_spec(self.dampen as int, 2 * root)
                }
            }),
    {
        proof {
            assert(0 <= self.node_1.mass * self.stiffness
                <= 80_000_000_000_000_000) by (nonlinear_arith)
                requires
                    1 <= self.node_1.mass <= 800_000_000,
                    0 <= self.stiffness <= 100_000_000,
            ;
        }
        let mk: i64 = self.node_1.mass.checked_mul(self.stiffness).unwrap();
        let root: u64 = isqrt(mk as u64);
        proof {
            lemma_isqrt_witness(mk as int, root as int);
        }
        if root == 0 {
            return 0;
        }
        let r = crate::fixed::fx_div(self.dampen, 2 * (root as i64));
        r
    }
}

/// Negating the force negates the velocity delta exactly: both rescalings
/// truncate toward zero, which is odd.
proof fn lemma_vel_delta_odd(f: int, mass: int, dt: int)
    requires
        mass > 0,
    ensures
        fx_div_spec(fx_mul_spec(-f, dt), mass) == -fx_div_spec(fx_mul_spec(f, dt), mass),
{
    assert((-f) * dt == -(f * dt)) by (nonlinear_arith);
    crate::fixed::lemma_div_tz_odd(f * dt, SCALE as int);
    let x = fx_mul_spec(f, dt);
    assert((-x) * SCALE == -(x * SCALE)) by (nonlinear_arith);
    crate::fixed::lemma_div_tz_odd(x * SCALE, mass);
}

/// Momentum conservation for an isolated spring pair: the spring-force
/// pass hands the two nodes exactly opposite forces, so with equal masses
/// — as `Spring::new` constructs them — the velocity deltas of one step
/// are exactly opposite and the two-node momentum sum is unchanged,
/// componentwise and exactly. Stated for steps whose updates stay inside
/// the working range: when one node's range guard skips its update, the
/// skipped half is lost by design.
pub proof fn lemma_spring_momentum_conserved(n1: SpringNode, n2: SpringNode, dt: int)
    requires
        n1.mass == n2.mass,
        1 <= n1.mass,
        n2.force.x == -n1.force.x,
        n2.force.y == -n1.force.y,
        n2.force.z == -n1.force.z,
        node_vel_in_range(n1, dt),
        node_vel_in_range(n2, dt),
    ensures
        node_vel_step_spec(n1, dt).x + node_vel_step_spec(n2, dt).x == n1.vel.x + n2.vel.x,
        node_vel_step_spec(n1, dt).y + node_vel_step_spec(n2, dt).y == n1.vel.y + n2.vel.y,
        node_vel_step_spec(n1, dt).z + node_vel_step_spec(n2, dt).z == n1.vel.z + n2.vel.z,
{
    lemma_vel_delta_odd(n1.force.x as int, n1.mass as int, dt);
    lemma_vel_delta_odd(n1.force.y as int, n1.mass as int, dt);
    lemma_vel_delta_odd(n1.force.z as int, n1.mass as int, dt);
}

} // verus!
