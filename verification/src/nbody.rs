//! The n-body stepping engine for particles: a pairwise impulse-accumulation
//! pass over every unordered pair, followed by a buffered apply pass that
//! advances momenta and positions. The two passes keep the read/compute/apply
//! discipline: forces are computed from a snapshot, collected, and applied
//! afterwards.

use crate::error::SimError;
use crate::fixed::{fits_i64, fx_div_spec, fx_mul_spec, FX_LIM, SCALE};
use crate::particle::{
    are_colliding, calc_collision_imp, collision_imp_spec, grav_force, grav_force_spec,
    pair_colliding_spec, particle_wf, sep_spec, Particle, IMPULSE_LIM, P_LIM,
};
use crate::vec3::{in_lim3, Vec3};
use vstd::prelude::*;

verus! {

/// Longest accepted timestep, in fixed-point seconds (ten seconds).
pub const DT_LIM: i64 = 10_000;

/// Largest particle count the pairwise engine accepts: keeps every
/// accumulated impulse inside the fixed-point range (the engine is an O(n^2)
/// narrow-phase scan, meant for small scenes).
pub const N_LIM: usize = 200;

/// Largest magnitude a single pair's impulse contribution can have.
pub const PAIR_LIM: i64 = 7_000_000_000_000;

/// Largest magnitude an accumulated impulse component can reach:
/// `N_LIM * N_LIM * PAIR_LIM`.
pub const ACC_LIM: i64 = 280_000_000_000_000_000;

/// The physical parameters of a particle scene, passed in explicitly.
#[derive(Clone, Copy, Debug, PartialEq, Eq, Structural)]
pub struct ForceConfig {
    /// Gravitational constant, fixed-point.
    pub gravity: i64,
    /// Inverse-distance damping factor softening the near-singularity;
    /// zero disables damping.
    pub dampen: i64,
    /// Restitution used for collision impulses, in `[0, SCALE]`.
    pub restitution: i64,
}

/// Parameter ranges the engine works in.
pub open spec fn config_wf(c: ForceConfig) -> bool {
    &&& 0 <= c.gravity <= FX_LIM
    &&& 0 <= c.dampen <= FX_LIM
    &&& 0 <= c.restitution <= SCALE
}

/// The impulse handed to `a` by one visit of the unordered pair `(a, b)`:
/// the gravitational force times the timestep, plus the collision impulse
/// when the two overlap. `b` receives the exact opposite.
pub open spec fn pair_dp_spec(a: Particle, b: Particle, cfg: ForceConfig, dt: int) -> Vec3 {
    let g = grav_force_spec(a, b, cfg.gravity as int, cfg.dampen as int);
    let base = Vec3 {
        x: fx_mul_spec(g.x as int, dt) as i64,
        y: fx_mul_spec(g.y as int, dt) as i64,
        z: fx_mul_spec(g.z as int, dt) as i64,
    };
    if pair_colliding_spec(a, b) {
        let c = collision_imp_spec(a, b, cfg.restitution as int);
        Vec3 { x: (base.x + c.x) as i64, y: (base.y + c.y) as i64, z: (base.z + c.z) as i64 }
    } else {
        base
    }
}

/// One pair's impulse contribution, as `pair_dp_spec` says.
fn pair_dp(a: &Particle, b: &Particle, cfg: &ForceConfig, dt: i64) -> (r: Vec3)
    requires
        particle_wf(*a),
        particle_wf(*b),
        config_wf(*cfg),
        0 < dt <= DT_LIM,
    ensures
        r == pair_dp_spec(*a, *b, *cfg, dt as int),
        in_lim3(r, PAIR_LIM as int),
{
    let g = grav_force(a, b, cfg.gravity, cfg.dampen);
    proof {
        assert(-30_000_000_000_000 <= g.x * dt <= 30_000_000_000_000 && -30_000_000_000_000 <= g.y
            * dt <= 30_000_000_000_000 && -30_000_000_000_000 <= g.z * dt
            <= 30_000_000_000_000) by (nonlinear_arith)
            requires
                -3_000_000_000 <= g.x <= 3_000_000_000,
                -3_000_000_000 <= g.y <= 3_000_000_000,
                -3_000_000_000 <= g.z <= 3_000_000_000,
                0 < dt <= 10_000,
        ;
        crate::vec2::lemma_div_mag_le(g.x * dt, SCALE as int, 30_000_000_000 as int);
        crate::vec2::lemma_div_mag_le(g.y * dt, SCALE as int, 30_000_000_000 as int);
        crate::vec2::lemma_div_mag_le(g.z * dt, SCALE as int, 30_000_000_000 as int);
    }
    let base = g.smul(dt);
    if are_colliding(a, b) {
        let c = calc_collision_imp(a, b, cfg.restitution);
        base.add(c)
    } else {
        base
    }
}

/// Componentwise sums of a sequence of vectors.
pub open spec fn sum_vx(s: Seq<Vec3>) -> int
    decreases s.len(),
{
    if s.len() == 0 {
        0
    } else {
        sum_vx(s.drop_last()) + s.last().x
    }
}

pub open spec fn sum_vy(s: Seq<Vec3>) -> int
    decreases s.len(),
{
    if s.len() == 0 {
        0
    } else {
        sum_vy(s.drop_last()) + s.last().y
    }
}

pub open spec fn sum_vz(s: Seq<Vec3>) -> int
    decreases s.len(),
{
    if s.len() == 0 {
        0
    } else {
        sum_vz(s.drop_last()) + s.last().z
    }
}

/// Componentwise sums of the momenta of a sequence of particles.
pub open spec fn sum_px(s: Seq<Particle>) -> int
    decreases s.len(),
{
    if s.len() == 0 {
        0
    } else {
        sum_px(s.drop_last()) + s.last().momentum.x
    }
}

pub open spec fn sum_py(s: Seq<Particle>) -> int
    decreases s.len(),
{
    if s.len() == 0 {
        0
    } else {
        sum_py(s.drop_last()) + s.last().momentum.y
    }
}

pub open spec fn sum_pz(s: Seq<Particle>) -> int
    decreases s.len(),
{
    if s.len() == 0 {
        0
    } else {
        sum_pz(s.drop_last()) + s.last().momentum.z
    }
}

/// Replacing one element moves each componentwise sum by the difference.
proof fn lemma_sum_v_update(s: Seq<Vec3>, i: int, v: Vec3)
    requires
        0 <= i < s.len(),
    ensures
        sum_vx(s.update(i, v)) == sum_vx(s) - s[i].x + v.x,
        sum_vy(s.update(i, v)) == sum_vy(s) - s[i].y + v.y,
        sum_vz(s.update(i, v)) == sum_vz(s) - s[i].z + v.z,
    decreases s.len(),
{
    if i == s.len() - 1 {
        assert(s.update(i, v).drop_last() =~= s.drop_last());
    } else {
        assert(s.update(i, v).drop_last() =~= s.drop_last().update(i, v));
        lemma_sum_v_update(s.drop_last(), i, v);
    }
}

/// Appending an element adds its components to the sums.
proof fn lemma_sum_v_push(s: Seq<Vec3>, v: Vec3)
    ensures
        sum_vx(s.push(v)) == sum_vx(s) + v.x,
        sum_vy(s.push(v)) == sum_vy(s) + v.y,
        sum_vz(s.push(v)) == sum_vz(s) + v.z,
{
    assert(s.push(v).drop_last() =~= s);
}

/// What index `m` has received from the pairs `(i, j)` with `i` fixed and
/// `i < j < j_end`: `+pair_dp` where `m` is the row index, `-pair_dp` where
/// `m` is the partner.
pub open spec fn row_contrib(
    ps: Seq<Particle>,
    cfg: ForceConfig,
    dt: int,
    m: int,
    i: int,
    j_end: int,
) -> (int, int, int)
    decreases j_end,
{
    if j_end <= 0 {
        (0, 0, 0)
    } else {
        let p = row_contrib(ps, cfg, dt, m, i, j_end - 1);
        let j = j_end - 1;
        if j <= i {
            p
        } else {
            let dp = pair_dp_spec(ps[i], ps[j], cfg, dt);
            let dx: int = if m == i {
                dp.x as int
            } else if m == j {
                -(dp.x as int)
            } else {
                0
            };
            let dy: int = if m == i {
                dp.y as int
            } else if m == j {
                -(dp.y as int)
            } else {
                0
            };
            let dz: int = if m == i {
                dp.z as int
            } else if m == j {
                -(dp.z as int)
            } else {
                0
            };
            (p.0 + dx, p.1 + dy, p.2 + dz)
        }
    }
}

/// What index `m` has received from all pairs with row index below `i_end`.
pub open spec fn rows_contrib(
    ps: Seq<Particle>,
    cfg: ForceConfig,
    dt: int,
    m: int,
    i_end: int,
) -> (int, int, int)
    decreases i_end,
{
    if i_end <= 0 {
        (0, 0, 0)
    } else {
        let p = rows_contrib(ps, cfg, dt, m, i_end - 1);
        let r = row_contrib(ps, cfg, dt, m, i_end - 1, ps.len() as int);
        (p.0 + r.0, p.1 + r.1, p.2 + r.2)
    }
}

/// The net impulse index `m` receives in one step: its share of every
/// unordered pair's gravity-plus-collision contribution.
pub open spec fn net_impulse_spec(ps: Seq<Particle>, cfg: ForceConfig, dt: int, m: int) -> (
    int,
    int,
    int,
) {
    rows_contrib(ps, cfg, dt, m, ps.len() as int)
}

/// A row holds nothing up to and including its own index.
proof fn lemma_row_zero(ps: Seq<Particle>, cfg: ForceConfig, dt: int, m: int, i: int, j_end: int)
    requires
        j_end <= i + 1,
    ensures
        row_contrib(ps, cfg, dt, m, i, j_end) == (0int, 0int, 0int),
    decreases
            (if j_end <= 0 {
                0int
            } else {
                j_end
            }),
{
    if j_end > 0 {
        lemma_row_zero(ps, cfg, dt, m, i, j_end - 1);
    }
}

/// One pass of pairwise force accumulation over a snapshot of the scene:
/// every unordered pair contributes equal and opposite impulses (gravity
/// times the timestep, plus a collision impulse for overlapping pairs), so
/// the returned impulses sum to zero, componentwise and exactly.
pub fn accumulate_impulses(ps: &Vec<Particle>, cfg: &ForceConfig, dt: i64) -> (dps: Vec<Vec3>)
    requires
        forall|k: int| 0 <= k < ps@.len() ==> particle_wf(#[trigger] ps@[k]),
        config_wf(*cfg),
        0 < dt <= DT_LIM,
        ps@.len() <= N_LIM,
    ensures
        dps@.len() == ps@.len(),
        forall|m: int|
            0 <= m < ps@.len() ==> ((#[trigger] dps@[m]).x == net_impulse_spec(
                ps@,
                *cfg,
                dt as int,
                m,
            ).0 && dps@[m].y == net_impulse_spec(ps@, *cfg, dt as int, m).1 && dps@[m].z
                == net_impulse_spec(ps@, *cfg, dt as int, m).2),
        forall|m: int| 0 <= m < ps@.len() ==> in_lim3(#[trigger] dps@[m], ACC_LIM as int),
        sum_vx(dps@) == 0,
        sum_vy(dps@) == 0,
        sum_vz(dps@) == 0,
{
    let n: usize = ps.len();
    let mut dps: Vec<Vec3> = Vec::new();
    while dps.len() < n
        invariant
            dps@.len() <= n,
            forall|m: int| 0 <= m < dps@.len() ==> #[trigger] dps@[m] == (Vec3 { x: 0, y: 0, z: 0 }),
            sum_vx(dps@) == 0,
            sum_vy(dps@) == 0,
            sum_vz(dps@) == 0,
        decreases n - dps@.len(),
    {
        proof {
            lemma_sum_v_push(dps@, Vec3 { x: 0, y: 0, z: 0 });
        }
        dps.push(Vec3 { x: 0, y: 0, z: 0 });
    }
    let mut i: usize = 0;
    while i < n
        invariant
            n == ps@.len(),
            n <= N_LIM,
            dps@.len() == n,
            i <= n,
            forall|k: int| 0 <= k < ps@.len() ==> particle_wf(#[trigger] ps@[k]),
            config_wf(*cfg),
            0 < dt <= DT_LIM,
            forall|m: int|
                0 <= m < n ==> ((#[trigger] dps@[m]).x == rows_contrib(
                    ps@,
                    *cfg,
                    dt as int,
                    m,
                    i as int,
                ).0 && dps@[m].y == rows_contrib(ps@, *cfg, dt as int, m, i as int).1 && dps@[m].z
                    == rows_contrib(ps@, *cfg, dt as int, m, i as int).2),
            forall|m: int|
                0 <= m < n ==> in_lim3(#[trigger] dps@[m], (i as int) * (n as int) * PAIR_LIM),
            sum_vx(dps@) == 0,
            sum_vy(dps@) == 0,
            sum_vz(dps@) == 0,
        decreases n - i,
    {
        let mut j: usize = i + 1;
        proof {
            assert forall|m: int| 0 <= m < n implies #[trigger] row_contrib(
                ps@,
                *cfg,
                dt as int,
                m,
                i as int,
                (i + 1) as int,
            ) == (0int, 0int, 0int) by {
                lemma_row_zero(ps@, *cfg, dt as int, m, i as int, (i + 1) as int);
            }
        }
        while j < n
            invariant
                n == ps@.len(),
                n <= N_LIM,
                dps@.len() == n,
                i < n,
                i + 1 <= j <= n,
                forall|k: int| 0 <= k < ps@.len() ==> particle_wf(#[trigger] ps@[k]),
                config_wf(*cfg),
                0 < dt <= DT_LIM,
                forall|m: int|
                    0 <= m < n ==> ((#[trigger] dps@[m]).x == rows_contrib(
                        ps@,
                        *cfg,
                        dt as int,
                        m,
                        i as int,
                    ).0 + row_contrib(ps@, *cfg, dt as int, m, i as int, j as int).0 && dps@[m].y
                        == rows_contrib(ps@, *cfg, dt as int, m, i as int).1 + row_contrib(
                        ps@,
                        *cfg,
                        dt as int,
                        m,
                        i as int,
                        j as int,
                    ).1 && dps@[m].z == rows_contrib(ps@, *cfg, dt as int, m, i as int).2
                        + row_contrib(ps@, *cfg, dt as int, m, i as int, j as int).2),
                forall|m: int|
                    0 <= m < n ==> in_lim3(
                        #[trigger] dps@[m],
                        ((i as int) * (n as int) + j as int) * PAIR_LIM,
                    ),
                sum_vx(dps@) == 0,
                sum_vy(dps@) == 0,
                sum_vz(dps@) == 0,
            decreases n - j,
        {
            let a: Particle = ps[i];
            let b: Particle = ps[j];
            let dp = pair_dp(&a, &b, cfg, dt);
            let ghost pre = dps@;
            let ghost bound = ((i as int) * (n as int) + j as int) * PAIR_LIM;
            proof {
                assert(bound + PAIR_LIM == ((i as int) * (n as int) + j as int + 1) * PAIR_LIM
                    && (i as int) * (n as int) + j as int + 1 <= (n as int) * (n as int) && 0
                    <= bound + PAIR_LIM <= ACC_LIM) by (nonlinear_arith)
                    requires
                        0 <= (i as int) && (i as int) < (n as int),
                        0 <= (j as int) && (j as int) < (n as int),
                        (n as int) <= 200,
                        bound == ((i as int) * (n as int) + j as int) * PAIR_LIM,
                        PAIR_LIM == 7_000_000_000_000,
                        ACC_LIM == 280_000_000_000_000_000,
                ;
            }
            let cur_i: Vec3 = dps[i];
            dps[i] = cur_i.add(dp);
            let ghost mid = dps@;
            let cur_j: Vec3 = dps[j];
            dps[j] = cur_j.sub(dp);
            proof {
                lemma_sum_v_update(pre, i as int, mid[i as int]);
                lemma_sum_v_update(mid, j as int, dps@[j as int]);
                assert forall|m: int|
                    0 <= m < n implies ((#[trigger] dps@[m]).x == rows_contrib(
                    ps@,
                    *cfg,
                    dt as int,
                    m,
                    i as int,
                ).0 + row_contrib(ps@, *cfg, dt as int, m, i as int, (j + 1) as int).0 && dps@[m].y
                    == rows_contrib(ps@, *cfg, dt as int, m, i as int).1 + row_contrib(
                    ps@,
                    *cfg,
                    dt as int,
                    m,
                    i as int,
                    (j + 1) as int,
                ).1 && dps@[m].z == rows_contrib(ps@, *cfg, dt as int, m, i as int).2 + row_contrib(
                    ps@,
                    *cfg,
                    dt as int,
                    m,
                    i as int,
                    (j + 1) as int,
                ).2 && in_lim3(dps@[m], ((i as int) * (n as int) + j as int + 1) * PAIR_LIM)) by {
                    assert(row_contrib(ps@, *cfg, dt as int, m, i as int, (j + 1) as int).0
                        == row_contrib(ps@, *cfg, dt as int, m, i as int, j as int).0 + (if m
                        == i as int {
                        pair_dp_spec(ps@[i as int], ps@[j as int], *cfg, dt as int).x as int
                    } else if m == j as int {
                        -(pair_dp_spec(ps@[i as int], ps@[j as int], *cfg, dt as int).x as int)
                    } else {
                        0
                    }));
                }
            }
            j = j + 1;
        }
        proof {
            assert forall|m: int|
                0 <= m < n implies (rows_contrib(ps@, *cfg, dt as int, m, (i + 1) as int).0
                == rows_contrib(ps@, *cfg, dt as int, m, i as int).0 + row_contrib(
                ps@,
                *cfg,
                dt as int,
                m,
                i as int,
                n as int,
            ).0 && rows_contrib(ps@, *cfg, dt as int, m, (i + 1) as int).1 == rows_contrib(
                ps@,
                *cfg,
                dt as int,
                m,
                i as int,
            ).1 + row_contrib(ps@, *cfg, dt as int, m, i as int, n as int).1 && rows_contrib(
                ps@,
                *cfg,
                dt as int,
                m,
                (i + 1) as int,
            ).2 == rows_contrib(ps@, *cfg, dt as int, m, i as int).2 + row_contrib(
                ps@,
                *cfg,
                dt as int,
                m,
                i as int,
                n as int,
            ).2) by {}
            assert(((i as int) * (n as int) + n as int) * PAIR_LIM == ((i as int + 1) * (n as int))
                * PAIR_LIM) by (nonlinear_arith);
            assert forall|m: int| 0 <= m < n implies in_lim3(
                #[trigger] dps@[m],
                ((i as int + 1) * (n as int)) * PAIR_LIM,
            ) by {}
        }
        i = i + 1;
    }
    proof {
        assert forall|m: int| 0 <= m < n implies in_lim3(#[trigger] dps@[m], ACC_LIM as int) by {
            assert((i as int) * (n as int) * PAIR_LIM <= ACC_LIM) by (nonlinear_arith)
                requires
                    0 <= (i as int) && (i as int) <= (n as int) && (n as int) <= 200,
                    PAIR_LIM == 7_000_000_000_000,
                    ACC_LIM == 280_000_000_000_000_000,
            ;
        }
    }
    dps
}

/// The particle after one impulse is applied: momentum moves by the
/// impulse, then the position advances by the new velocity times the
/// timestep (semi-implicit: the updated momentum drives the move).
pub open spec fn applied_particle(p: Particle, dp: Vec3, dt: int) -> Particle {
    let mx = p.momentum.x + dp.x;
    let my = p.momentum.y + dp.y;
    let mz = p.momentum.z + dp.z;
    let drx = fx_mul_spec(fx_div_spec(mx, p.mass as int), dt);
    let dry = fx_mul_spec(fx_div_spec(my, p.mass as int), dt);
    let drz = fx_mul_spec(fx_div_spec(mz, p.mass as int), dt);
    Particle {
        pos: Vec3 {
            x: (p.pos.x + drx) as i64,
            y: (p.pos.y + dry) as i64,
            z: (p.pos.z + drz) as i64,
        },
        momentum: Vec3 { x: mx as i64, y: my as i64, z: mz as i64 },
        mass: p.mass,
        radius: p.radius,
        charge: p.charge,
    }
}

/// Whether the applied state stays inside the working coordinate range.
pub open spec fn applied_in_range(p: Particle, dp: Vec3, dt: int) -> bool {
    &&& -P_LIM <= p.momentum.x + dp.x <= P_LIM
    &&& -P_LIM <= p.momentum.y + dp.y <= P_LIM
    &&& -P_LIM <= p.momentum.z + dp.z <= P_LIM
    &&& -P_LIM <= p.pos.x + fx_mul_spec(fx_div_spec(p.momentum.x + dp.x, p.mass as int), dt)
        <= P_LIM
    &&& -P_LIM <= p.pos.y + fx_mul_spec(fx_div_spec(p.momentum.y + dp.y, p.mass as int), dt)
        <= P_LIM
    &&& -P_LIM <= p.pos.z + fx_mul_spec(fx_div_spec(p.momentum.z + dp.z, p.mass as int), dt)
        <= P_LIM
}

/// Apply one impulse per particle, momentum first, then position from the
/// updated momentum. Nothing is written unless every update stays in range:
/// the pass either applies all updates (`Ok`) or none (`Err`).
pub fn apply_impulses(ps: &mut Vec<Particle>, dps: &Vec<Vec3>, dt: i64) -> (r: Result<
    (),
    SimError,
>)
    requires
        forall|k: int| 0 <= k < old(ps)@.len() ==> particle_wf(#[trigger] old(ps)@[k]),
        dps@.len() == old(ps)@.len(),
        forall|k: int| 0 <= k < dps@.len() ==> in_lim3(#[trigger] dps@[k], ACC_LIM as int),
        0 < dt <= DT_LIM,
    ensures
        (r is Ok) == (forall|m: int|
            0 <= m < old(ps)@.len() ==> #[trigger] applied_in_range(
                old(ps)@[m],
                dps@[m],
                dt as int,
            )),
        r is Ok ==> final(ps)@.len() == old(ps)@.len() && (forall|m: int|
            0 <= m < old(ps)@.len() ==> #[trigger] final(ps)@[m] == applied_particle(
                old(ps)@[m],
                dps@[m],
                dt as int,
            ) && particle_wf(final(ps)@[m])),
        r is Err ==> final(ps)@ == old(ps)@,
        r matches Err(e) ==> e is NumericalInstability,
{
    let n: usize = ps.len();
    let mut k: usize = 0;
    while k < n
        invariant
            n == ps@.len(),
            ps@ == old(ps)@,
            dps@.len() == n,
            k <= n,
            forall|m: int| 0 <= m < n ==> particle_wf(#[trigger] ps@[m]),
            forall|m: int| 0 <= m < n ==> in_lim3(#[trigger] dps@[m], ACC_LIM as int),
            0 < dt <= DT_LIM,
            forall|m: int|
                0 <= m < k ==> #[trigger] applied_in_range(ps@[m], dps@[m], dt as int),
        decreases n - k,
    {
        let p: Particle = ps[k];
        let dp: Vec3 = dps[k];
        let mx: i64 = p.momentum.x + dp.x;
        let my: i64 = p.momentum.y + dp.y;
        let mz: i64 = p.momentum.z + dp.z;
        if mx < -P_LIM || mx > P_LIM || my < -P_LIM || my > P_LIM || mz < -P_LIM || mz > P_LIM {
            proof {
                assert(!applied_in_range(ps@[k as int], dps@[k as int], dt as int));
            }
            return Err(SimError::NumericalInstability);
        }
        let dx: i64 = step_delta(mx, p.mass, dt);
        let dy: i64 = step_delta(my, p.mass, dt);
        let dz: i64 = step_delta(mz, p.mass, dt);
        let px: i64 = p.pos.x + dx;
        let py: i64 = p.pos.y + dy;
        let pz: i64 = p.pos.z + dz;
        if px < -P_LIM || px > P_LIM || py < -P_LIM || py > P_LIM || pz < -P_LIM || pz > P_LIM {
            proof {
                assert(!applied_in_range(ps@[k as int], dps@[k as int], dt as int));
            }
            return Err(SimError::NumericalInstability);
        }
        k = k + 1;
    }
    k = 0;
    while k < n
        invariant
            n == old(ps)@.len(),
            ps@.len() == n,
            dps@.len() == n,
            k <= n,
            forall|m: int| 0 <= m < n ==> particle_wf(#[trigger] old(ps)@[m]),
            forall|m: int| 0 <= m < n ==> in_lim3(#[trigger] dps@[m], ACC_LIM as int),
            0 < dt <= DT_LIM,
            forall|m: int|
                0 <= m < n ==> #[trigger] applied_in_range(old(ps)@[m], dps@[m], dt as int),
            forall|m: int| k <= m < n ==> #[trigger] ps@[m] == old(ps)@[m],
            forall|m: int|
                0 <= m < k ==> #[trigger] ps@[m] == applied_particle(
                    old(ps)@[m],
                    dps@[m],
                    dt as int,
                ) && particle_wf(ps@[m]),
        decreases n - k,
    {
        let p: Particle = ps[k];
        let dp: Vec3 = dps[k];
        proof {
            assert(applied_in_range(old(ps)@[k as int], dps@[k as int], dt as int));
        }
        let mx: i64 = p.momentum.x + dp.x;
        let my: i64 = p.momentum.y + dp.y;
        let mz: i64 = p.momentum.z + dp.z;
        let dx: i64 = step_delta(mx, p.mass, dt);
        let dy: i64 = step_delta(my, p.mass, dt);
        let dz: i64 = step_delta(mz, p.mass, dt);
        ps[k] = Particle {
            pos: Vec3 { x: p.pos.x + dx, y: p.pos.y + dy, z: p.pos.z + dz },
            momentum: Vec3 { x: mx, y: my, z: mz },
            mass: p.mass,
            radius: p.radius,
            charge: p.charge,
        };
        k = k + 1;
    }
    Ok(())
}

/// Momentum conservation: when every particle's momentum moves by exactly
/// its entry of an impulse list, the total momentum moves by exactly the
/// impulse sum — so for a closed system, whose pairwise impulses cancel and
/// sum to zero, the total momentum after the step equals the total before,
/// componentwise and exactly.
pub proof fn lemma_momentum_conserved(before: Seq<Particle>, after: Seq<Particle>, dps: Seq<Vec3>)
    requires
        before.len() == after.len(),
        dps.len() == before.len(),
        forall|m: int|
            0 <= m < before.len() ==> ((#[trigger] after[m]).momentum.x == before[m].momentum.x
                + dps[m].x && after[m].momentum.y == before[m].momentum.y + dps[m].y
                && after[m].momentum.z == before[m].momentum.z + dps[m].z),
    ensures
        sum_px(after) == sum_px(before) + sum_vx(dps),
        sum_py(after) == sum_py(before) + sum_vy(dps),
        sum_pz(after) == sum_pz(before) + sum_vz(dps),
    decreases before.len(),
{
    if before.len() > 0 {
        lemma_momentum_conserved(before.drop_last(), after.drop_last(), dps.drop_last());
    }
}

/// The net impulse of `net_impulse_spec`, packed back into a vector.
pub open spec fn net_impulse_vec(ps: Seq<Particle>, cfg: ForceConfig, dt: int, m: int) -> Vec3 {
    let t = net_impulse_spec(ps, cfg, dt, m);
    Vec3 { x: t.0 as i64, y: t.1 as i64, z: t.2 as i64 }
}

/// One full particle step: accumulate the pairwise impulses from a snapshot
/// of the scene, then apply them all at once. Either every particle advances
/// (`Ok`) or, when an update would leave the fixed-point range, none does
/// (`Err`). On success the total momentum of the scene is exactly the total
/// momentum before the step.
pub fn step_particles(ps: &mut Vec<Particle>, cfg: &ForceConfig, dt: i64) -> (r: Result<
    (),
    SimError,
>)
    requires
        forall|k: int| 0 <= k < old(ps)@.len() ==> particle_wf(#[trigger] old(ps)@[k]),
        config_wf(*cfg),
        0 < dt <= DT_LIM,
        old(ps)@.len() <= N_LIM,
    ensures
        (r is Ok) == (forall|m: int|
            0 <= m < old(ps)@.len() ==> #[trigger] applied_in_range(
                old(ps)@[m],
                net_impulse_vec(old(ps)@, *cfg, dt as int, m),
                dt as int,
            )),
        r is Ok ==> final(ps)@.len() == old(ps)@.len() && (forall|m: int|
            0 <= m < old(ps)@.len() ==> #[trigger] final(ps)@[m] == applied_particle(
                old(ps)@[m],
                net_impulse_vec(old(ps)@, *cfg, dt as int, m),
                dt as int,
            ) && particle_wf(final(ps)@[m])),
        r is Ok ==> sum_px(final(ps)@) == sum_px(old(ps)@) && sum_py(final(ps)@) == sum_py(
            old(ps)@,
        ) && sum_pz(final(ps)@) == sum_pz(old(ps)@),
        r is Err ==> final(ps)@ == old(ps)@,
        r matches Err(e) ==> e is NumericalInstability,
{
    let dps = accumulate_impulses(ps, cfg, dt);
    proof {
        assert forall|m: int| 0 <= m < old(ps)@.len() implies #[trigger] dps@[m]
            == net_impulse_vec(old(ps)@, *cfg, dt as int, m) by {}
    }
    let r = apply_impulses(ps, &dps, dt);
    proof {
        assert forall|m: int| 0 <= m < old(ps)@.len() implies (#[trigger] applied_in_range(
            old(ps)@[m],
            net_impulse_vec(old(ps)@, *cfg, dt as int, m),
            dt as int,
        ) == applied_in_range(old(ps)@[m], dps@[m], dt as int)) by {}
        if r is Ok {
            lemma_momentum_conserved(old(ps)@, ps@, dps@);
        }
    }
    r
}

/// Position advance of one component for one step: velocity (momentum over
/// mass) times the timestep.
fn step_delta(m: i64, mass: i64, dt: i64) -> (r: i64)
    requires
        1 <= mass,
        -P_LIM <= m <= P_LIM,
        0 < dt <= DT_LIM,
    ensures
        r == fx_mul_spec(fx_div_spec(m as int, mass as int), dt as int),
        -8_000_000_000_000 <= r <= 8_000_000_000_000,
{
    let v: i64 = crate::fixed::fx_div(m, mass);
    proof {
        crate::fixed::lemma_div_tz_bounds(m * SCALE, mass as int);
        assert(fits_i64(v * dt) && -8_000_000_000_000 * SCALE <= v * dt <= 8_000_000_000_000
            * SCALE) by (nonlinear_arith)
            requires
                -800_000_000_000 <= v <= 800_000_000_000,
                0 < dt <= 10_000,
                SCALE == 1000,
        ;
    }
    let r = crate::fixed::fx_mul_wide(v, dt);
    proof {
        crate::vec2::lemma_div_mag_le(v * dt, SCALE as int, 8_000_000_000_000);
    }
    r
}

} // verus!
