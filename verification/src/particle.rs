//! Particles and the per-step integration update.
//!
//! Each step applies gravity to the vertical velocity, adds the repulsive
//! kick of every snapshot particle within the Manhattan-distance cutoff,
//! and then advances the position by the updated velocity (semi-implicit
//! Euler: the position moves by the velocity of the same step).

use vstd::prelude::*;
use crate::fixed::{
    fdiv, fdiv_spec, fmul, fmul_spec, lemma_fdiv_bound, lemma_fdiv_nonneg, lemma_fmul_bound,
    lemma_fsq_nonneg, lemma_scaled_share_bound, mag, SCALE,
};
use crate::vector::{v3_add, v3_bounded, v3_zero, Vector3D, V3};
use crate::rng::Rng;

verus! {

/// Manhattan-distance cutoff beyond which two particles do not interact
/// (40 units).
pub const INTERACTION_RADIUS: i64 = 40 * SCALE;

/// Strength `k` of the repulsion (one unit).
pub const FORCE_CONSTANT: i64 = SCALE;

/// Largest per-axis kick a single neighbour can give: the scalar force is
/// at most `FORCE_CONSTANT` rescaled, and the per-axis share never exceeds
/// the scalar.
pub const KICK_LIMIT: i64 = FORCE_CONSTANT * SCALE;

/// Bound on the coordinates and velocities a step accepts, so that the
/// fixed-width arithmetic cannot overflow.
pub const COORD_LIMIT: i64 = 1099511627776;

/// Bound on the time step and gravity a step accepts.
pub const RATE_LIMIT: i64 = 1048576;

/// Bound on the population size a step accepts.
pub const COUNT_LIMIT: usize = 1048576;

/// Bound on any velocity component right after a step's force phase:
/// the incoming bound, the gravity increment, and one kick per snapshot
/// particle.
pub const VEL_LIMIT: i64 = 2200000000000;

/// Every particle starts with its position inside `[0, POSITION_SPAN)` per
/// axis (500 units).
pub const POSITION_SPAN: i64 = 500 * SCALE;

/// Every particle starts with its velocity inside `[0, VELOCITY_SPAN)` per
/// axis (10 units).
pub const VELOCITY_SPAN: i64 = 10 * SCALE;

/// Mathematical model of a particle: position and velocity as unbounded
/// fixed-point integers.
pub ghost struct PState {
    pub position: V3,
    pub velocity: V3,
}

/// A point particle: a position and a velocity, both in fixed-point units.
#[derive(Clone, Copy, Debug, PartialEq, Eq, Structural)]
pub struct Particle {
    pub position: Vector3D,
    pub velocity: Vector3D,
}

impl View for Particle {
    type V = PState;

    open spec fn view(&self) -> PState {
        PState { position: self.position@, velocity: self.velocity@ }
    }
}

/// The models of a sequence of particles.
pub open spec fn models(s: Seq<Particle>) -> Seq<PState> {
    s.map_values(|p: Particle| p@)
}

/// Position and velocity components all have magnitude at most `b`.
pub open spec fn p_bounded(p: PState, b: int) -> bool {
    v3_bounded(p.position, b) && v3_bounded(p.velocity, b)
}

/// Every particle of `s` is bounded by `b`.
pub open spec fn all_bounded(s: Seq<PState>, b: int) -> bool {
    forall|k: int| 0 <= k < s.len() ==> p_bounded(#[trigger] s[k], b)
}

/// A freshly created particle: position inside `[0, POSITION_SPAN)` and
/// velocity inside `[0, VELOCITY_SPAN)`, per axis.
pub open spec fn in_init_range(p: PState) -> bool {
    &&& 0 <= p.position.x < POSITION_SPAN as int
    &&& 0 <= p.position.y < POSITION_SPAN as int
    &&& 0 <= p.position.z < POSITION_SPAN as int
    &&& 0 <= p.velocity.x < VELOCITY_SPAN as int
    &&& 0 <= p.velocity.y < VELOCITY_SPAN as int
    &&& 0 <= p.velocity.z < VELOCITY_SPAN as int
}

/// The velocity kick that a particle at `p` receives from a neighbour at
/// `q`: zero when the two coincide, when they are farther apart than the
/// Manhattan-distance cutoff, or when the rescaled squared distance
/// truncates to zero; otherwise an inverse-square repulsion directed along
/// the componentwise difference, each axis taking its normalised share.
pub open spec fn pair_kick(p: V3, q: V3) -> V3 {
    let dx = p.x - q.x;
    let dy = p.y - q.y;
    let dz = p.z - q.z;
    let m = mag(dx) + mag(dy) + mag(dz);
    let ss = fmul_spec(dx, dx) + fmul_spec(dy, dy) + fmul_spec(dz, dz);
    if m == 0 || m > INTERACTION_RADIUS as int || ss == 0 {
        v3_zero()
    } else {
        let f = fdiv_spec(FORCE_CONSTANT as int, ss);
        V3 {
            x: fdiv_spec(fmul_spec(f, dx), m),
            y: fdiv_spec(fmul_spec(f, dy), m),
            z: fdiv_spec(fmul_spec(f, dz), m),
        }
    }
}

/// The summed kick from the first `k` particles of the snapshot.
pub open spec fn kick_sum_prefix(p: V3, s: Seq<PState>, k: int) -> V3
    decreases k,
{
    if k <= 0 {
        v3_zero()
    } else {
        v3_add(kick_sum_prefix(p, s, k - 1), pair_kick(p, s[k - 1].position))
    }
}

/// The summed kick from the whole snapshot.
pub open spec fn kick_sum(p: V3, s: Seq<PState>) -> V3 {
    kick_sum_prefix(p, s, s.len() as int)
}

/// One integration step of a single particle against the pre-step snapshot
/// `s`: gravity lowers the vertical velocity by `g * dt` (rescaled), the
/// snapshot kicks are added when interaction is enabled, and the position
/// advances by the updated velocity times `dt` (rescaled).
pub open spec fn step_spec(p: PState, s: Seq<PState>, g: int, dt: int, interact: bool) -> PState {
    let v1 = V3 { x: p.velocity.x, y: p.velocity.y - fmul_spec(g, dt), z: p.velocity.z };
    let v2 = if interact {
        v3_add(v1, kick_sum(p.position, s))
    } else {
        v1
    };
    PState {
        position: V3 {
            x: p.position.x + fmul_spec(v2.x, dt),
            y: p.position.y + fmul_spec(v2.y, dt),
            z: p.position.z + fmul_spec(v2.z, dt),
        },
        velocity: v2,
    }
}

/// No single neighbour kicks a particle by more than `KICK_LIMIT` on any
/// axis.
pub proof fn lemma_pair_kick_bounded(p: V3, q: V3)
    ensures
        v3_bounded(pair_kick(p, q), KICK_LIMIT as int),
{
    let dx = p.x - q.x;
    let dy = p.y - q.y;
    let dz = p.z - q.z;
    let m = mag(dx) + mag(dy) + mag(dz);
    let ss = fmul_spec(dx, dx) + fmul_spec(dy, dy) + fmul_spec(dz, dz);
    if !(m == 0 || m > INTERACTION_RADIUS as int || ss == 0) {
        lemma_fsq_nonneg(dx as int);
        lemma_fsq_nonneg(dy as int);
        lemma_fsq_nonneg(dz as int);
        let f = fdiv_spec(FORCE_CONSTANT as int, ss);
        lemma_fdiv_nonneg(FORCE_CONSTANT as int, ss);
        lemma_fdiv_bound(FORCE_CONSTANT as int, ss);
        lemma_scaled_share_bound(f, dx, m);
        lemma_scaled_share_bound(f, dy, m);
        lemma_scaled_share_bound(f, dz, m);
    }
}

/// Magnitude of a bounded `a`, as an `i64`.
fn mag64(a: i64) -> (r: i64)
    requires
        mag(a as int) <= i64::MAX as int,
    ensures
        r as int == mag(a as int),
{
    if a >= 0 {
        a
    } else {
        -a
    }
}

impl Particle {
    /// A fresh particle: pseudo-random position inside
    /// `[0, POSITION_SPAN)` and velocity inside `[0, VELOCITY_SPAN)`, per
    /// axis.
    pub fn new(rng: &mut Rng) -> (r: Particle)
        ensures
            in_init_range(r@),
    {
        let position = Vector3D {
            x: rng.next_below(POSITION_SPAN as u64) as i64,
            y: rng.next_below(POSITION_SPAN as u64) as i64,
            z: rng.next_below(POSITION_SPAN as u64) as i64,
        };
        let velocity = Vector3D {
            x: rng.next_below(VELOCITY_SPAN as u64) as i64,
            y: rng.next_below(VELOCITY_SPAN as u64) as i64,
            z: rng.next_below(VELOCITY_SPAN as u64) as i64,
        };
        Particle { position, velocity }
    }

    /// One integration step against the pre-step snapshot; see
    /// [`step_spec`] for the exact result.
    #[verifier::loop_isolation(false)]
    #[verifier::rlimit(50)]
    pub fn tick(&mut self, dt: i64, g: i64, snapshot: &Vec<Particle>, interact: bool)
        requires
            p_bounded(old(self)@, COORD_LIMIT as int),
            all_bounded(models(snapshot@), COORD_LIMIT as int),
            mag(dt as int) <= RATE_LIMIT as int,
            mag(g as int) <= RATE_LIMIT as int,
            snapshot@.len() <= COUNT_LIMIT as int,
        ensures
            final(self)@ == step_spec(old(self)@, models(snapshot@), g as int, dt as int, interact),
    {
        proof {
            lemma_fmul_bound(g as int, dt as int, RATE_LIMIT as int, RATE_LIMIT as int);
        }
        let gdt: i64 = fmul(g, dt);
        self.velocity.y = self.velocity.y - gdt;
        let ghost s = models(snapshot@);
        let ghost pos0 = self@.position;
        let ghost v1 = self@.velocity;
        if interact {
            let mut i: usize = 0;
            while i < snapshot.len()
                invariant
                    0 <= i as int <= s.len(),
                    self.position == old(self).position,
                    self@.velocity == v3_add(v1, kick_sum_prefix(pos0, s, i as int)),
                    v3_bounded(
                        self@.velocity,
                        COORD_LIMIT as int + 2000000000 + (i as int) * (KICK_LIMIT as int),
                    ),
                decreases s.len() - i as int,
            {
                assert(p_bounded(s[i as int], COORD_LIMIT as int));
                let q: Particle = snapshot[i];
                proof {
                    assert(q@ == s[i as int]);
                }
                let dx: i64 = self.position.x - q.position.x;
                let dy: i64 = self.position.y - q.position.y;
                let dz: i64 = self.position.z - q.position.z;
                let ghost kick = pair_kick(pos0, s[i as int].position);
                proof {
                    lemma_pair_kick_bounded(pos0, s[i as int].position);
                }
                if !(dx == 0 && dy == 0 && dz == 0) {
                    let m: i64 = mag64(dx) + mag64(dy) + mag64(dz);
                    if m <= INTERACTION_RADIUS {
                        proof {
                            lemma_fmul_bound(
                                dx as int,
                                dx as int,
                                INTERACTION_RADIUS as int,
                                INTERACTION_RADIUS as int,
                            );
                            lemma_fmul_bound(
                                dy as int,
                                dy as int,
                                INTERACTION_RADIUS as int,
                                INTERACTION_RADIUS as int,
                            );
                            lemma_fmul_bound(
                                dz as int,
                                dz as int,
                                INTERACTION_RADIUS as int,
                                INTERACTION_RADIUS as int,
                            );
                            lemma_fsq_nonneg(dx as int);
                            lemma_fsq_nonneg(dy as int);
                            lemma_fsq_nonneg(dz as int);
                        }
                        let ss: i64 = fmul(dx, dx) + fmul(dy, dy) + fmul(dz, dz);
                        if ss != 0 {
                            proof {
                                lemma_fdiv_bound(FORCE_CONSTANT as int, ss as int);
                                lemma_fdiv_nonneg(FORCE_CONSTANT as int, ss as int);
                            }
                            let f: i64 = fdiv(FORCE_CONSTANT, ss);
                            proof {
                                lemma_fmul_bound(
                                    f as int,
                                    dx as int,
                                    KICK_LIMIT as int,
                                    INTERACTION_RADIUS as int,
                                );
                                lemma_fmul_bound(
                                    f as int,
                                    dy as int,
                                    KICK_LIMIT as int,
                                    INTERACTION_RADIUS as int,
                                );
                                lemma_fmul_bound(
                                    f as int,
                                    dz as int,
                                    KICK_LIMIT as int,
                                    INTERACTION_RADIUS as int,
                                );
                                lemma_scaled_share_bound(f as int, dx as int, m as int);
                                lemma_scaled_share_bound(f as int, dy as int, m as int);
                                lemma_scaled_share_bound(f as int, dz as int, m as int);
                                lemma_fdiv_bound(fmul_spec(f as int, dx as int), m as int);
                                lemma_fdiv_bound(fmul_spec(f as int, dy as int), m as int);
                                lemma_fdiv_bound(fmul_spec(f as int, dz as int), m as int);
                            }
                            let kx: i64 = fdiv(fmul(f, dx), m);
                            let ky: i64 = fdiv(fmul(f, dy), m);
                            let kz: i64 = fdiv(fmul(f, dz), m);
                            self.velocity.x = self.velocity.x + kx;
                            self.velocity.y = self.velocity.y + ky;
                            self.velocity.z = self.velocity.z + kz;
                            assert(kick == (V3 { x: kx as int, y: ky as int, z: kz as int }));
                        } else {
                            assert(kick == v3_zero());
                        }
                    } else {
                        assert(kick == v3_zero());
                    }
                } else {
                    assert(kick == v3_zero());
                }
                proof {
                    assert(kick_sum_prefix(pos0, s, i as int + 1) == v3_add(
                        kick_sum_prefix(pos0, s, i as int),
                        kick,
                    ));
                }
                i = i + 1;
            }
            proof {
                assert(self@.velocity == v3_add(v1, kick_sum(pos0, s)));
            }
        }
        let ghost v2 = self@.velocity;
        proof {
            assert(v3_bounded(v2, VEL_LIMIT as int));
            lemma_fmul_bound(v2.x, dt as int, VEL_LIMIT as int, RATE_LIMIT as int);
            lemma_fmul_bound(v2.y, dt as int, VEL_LIMIT as int, RATE_LIMIT as int);
            lemma_fmul_bound(v2.z, dt as int, VEL_LIMIT as int, RATE_LIMIT as int);
        }
        let ddx: i64 = fmul(self.velocity.x, dt);
        let ddy: i64 = fmul(self.velocity.y, dt);
        let ddz: i64 = fmul(self.velocity.z, dt);
        self.position.x = self.position.x + ddx;
        self.position.y = self.position.y + ddy;
        self.position.z = self.position.z + ddz;
        proof {
            assert(self@ == step_spec(old(self)@, s, g as int, dt as int, interact));
        }
    }
}

} // verus!
