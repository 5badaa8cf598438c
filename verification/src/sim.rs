//! The simulation: a bounded volume, its particle population, its
//! configuration, and the per-frame orchestration.

use vstd::prelude::*;
use crate::fixed::{fmul, fmul_spec, lemma_fmul_bound, mag, SCALE};
use crate::particle::{
    all_bounded, in_init_range, models, p_bounded, step_spec, Particle, PState, COORD_LIMIT,
    COUNT_LIMIT, RATE_LIMIT,
};
use crate::rng::Rng;
use crate::vector::{v3_bounded, v3_zero, Vector3D, V3};

verus! {

/// Restitution numerator: after a bounce a velocity component keeps
/// `RESTITUTION / SCALE` (0.8) of its magnitude, sign flipped.
pub const RESTITUTION: i64 = 800;

/// Default particle population.
pub const DEFAULT_PARTICLE_NUM: usize = 1000;

/// Default gravity: 9.81 units per square time unit.
pub const DEFAULT_GRAVITY: i64 = 9810;

/// Default far corner of the volume: 200 units along each axis.
pub const DEFAULT_EDGE: i64 = 200 * SCALE;

/// Seed of the pseudo-random scatter of the initial population.
pub const DEFAULT_SEED: u64 = 88172645463325252;

/// Bound on particle state accepted by collision resolution: wide enough
/// for anything one step can make from in-bounds state.
pub const RESOLVE_LIMIT: i64 = 4503599627370496;

/// Tunable parameters, fixed at construction; gravity alone has a setter.
#[derive(Clone, Copy, Debug, PartialEq, Eq, Structural)]
pub struct Config {
    /// Size of the initial population.
    pub particle_num: usize,
    /// Downward acceleration, in fixed-point units.
    pub gravity: i64,
    /// Whether particles repel each other pairwise.
    pub enable_interaction: bool,
}

impl Config {
    /// The default configuration: 1000 particles, gravity 9.81 units,
    /// pairwise interaction enabled.
    pub fn new() -> (r: Config)
        ensures
            r == (Config {
                particle_num: DEFAULT_PARTICLE_NUM,
                gravity: DEFAULT_GRAVITY,
                enable_interaction: true,
            }),
    {
        Config {
            particle_num: DEFAULT_PARTICLE_NUM,
            gravity: DEFAULT_GRAVITY,
            enable_interaction: true,
        }
    }
}

/// One simulation step of the whole population: every particle steps
/// against the same pre-step snapshot `s`.
pub open spec fn step_all(s: Seq<PState>, g: int, dt: int, interact: bool) -> Seq<PState> {
    s.map_values(|p: PState| step_spec(p, s, g, dt, interact))
}

/// One axis of boundary resolution: reflect across the near face if the
/// coordinate lies below it, then across the far face if it lies beyond
/// it.  A reflection mirrors the overshoot back over the face and flips
/// the velocity, damped by the restitution factor.
pub open spec fn resolve_axis(p: int, v: int, lo: int, hi: int) -> (int, int) {
    let (p1, v1) = if p < lo {
        (2 * lo - p, -fmul_spec(v, RESTITUTION as int))
    } else {
        (p, v)
    };
    if p1 > hi {
        (2 * hi - p1, -fmul_spec(v1, RESTITUTION as int))
    } else {
        (p1, v1)
    }
}

/// Boundary resolution of one particle; the three axes are independent,
/// so a corner overshoot bounces on several axes in the same pass.
pub open spec fn resolve_spec(p: PState, origin: V3, edge: V3) -> PState {
    let rx = resolve_axis(p.position.x, p.velocity.x, origin.x, edge.x);
    let ry = resolve_axis(p.position.y, p.velocity.y, origin.y, edge.y);
    let rz = resolve_axis(p.position.z, p.velocity.z, origin.z, edge.z);
    PState {
        position: V3 { x: rx.0, y: ry.0, z: rz.0 },
        velocity: V3 { x: rx.1, y: ry.1, z: rz.1 },
    }
}

/// Boundary resolution of the whole population.
pub open spec fn resolve_all(s: Seq<PState>, origin: V3, edge: V3) -> Seq<PState> {
    s.map_values(|p: PState| resolve_spec(p, origin, edge))
}

/// Mathematical model of a simulation.
pub ghost struct SimState {
    pub origin: V3,
    pub edge: V3,
    pub particles: Seq<PState>,
    pub config: Config,
}

/// A particle simulation: the volume between `origin` and `edge`, its
/// particle population, and its configuration.
pub struct Simulation {
    origin: Vector3D,
    edge: Vector3D,
    particles: Vec<Particle>,
    config: Config,
}

impl View for Simulation {
    type V = SimState;

    closed spec fn view(&self) -> SimState {
        SimState {
            origin: self.origin@,
            edge: self.edge@,
            particles: models(self.particles@),
            config: self.config,
        }
    }
}

impl Simulation {
    /// A simulation over the default volume, populated with
    /// `config.particle_num` pseudo-randomly scattered particles.
    #[verifier::loop_isolation(false)]
    pub fn new(config: Config) -> (r: Simulation)
        ensures
            r@.origin == v3_zero(),
            r@.edge == (V3 {
                x: DEFAULT_EDGE as int,
                y: DEFAULT_EDGE as int,
                z: DEFAULT_EDGE as int,
            }),
            r@.config == config,
            r@.particles.len() == config.particle_num,
            forall|k: int|
                0 <= k < r@.particles.len() ==> in_init_range(#[trigger] r@.particles[k]),
            all_bounded(r@.particles, COORD_LIMIT as int),
    {
        let mut rng = Rng::new(DEFAULT_SEED);
        let mut particles: Vec<Particle> = Vec::new();
        while particles.len() < config.particle_num
            invariant
                particles@.len() <= config.particle_num,
                forall|k: int|
                    0 <= k < particles@.len() ==> in_init_range(#[trigger] particles@[k]@),
            decreases config.particle_num - particles@.len(),
        {
            let p = Particle::new(&mut rng);
            particles.push(p);
        }
        Simulation {
            origin: Vector3D { x: 0, y: 0, z: 0 },
            edge: Vector3D { x: DEFAULT_EDGE, y: DEFAULT_EDGE, z: DEFAULT_EDGE },
            particles,
            config,
        }
    }

    /// A simulation over the default volume with the given population, for
    /// callers that scatter, restore or hand-place particles themselves.
    pub fn from_particles(config: Config, particles: Vec<Particle>) -> (r: Simulation)
        ensures
            r@.origin == v3_zero(),
            r@.edge == (V3 {
                x: DEFAULT_EDGE as int,
                y: DEFAULT_EDGE as int,
                z: DEFAULT_EDGE as int,
            }),
            r@.config == config,
            r@.particles == models(particles@),
    {
        Simulation {
            origin: Vector3D { x: 0, y: 0, z: 0 },
            edge: Vector3D { x: DEFAULT_EDGE, y: DEFAULT_EDGE, z: DEFAULT_EDGE },
            particles,
            config,
        }
    }

    /// One step of size `dt`: every particle integrates against the same
    /// pre-step snapshot of the population, so the result does not depend
    /// on the order of the collection.
    #[verifier::loop_isolation(false)]
    pub fn tick(&mut self, dt: i64)
        requires
            all_bounded(old(self)@.particles, COORD_LIMIT as int),
            old(self)@.particles.len() <= COUNT_LIMIT as int,
            mag(dt as int) <= RATE_LIMIT as int,
            mag(old(self)@.config.gravity as int) <= RATE_LIMIT as int,
        ensures
            final(self)@.particles == step_all(
                old(self)@.particles,
                old(self)@.config.gravity as int,
                dt as int,
                old(self)@.config.enable_interaction,
            ),
            final(self)@.origin == old(self)@.origin,
            final(self)@.edge == old(self)@.edge,
            final(self)@.config == old(self)@.config,
    {
        let g: i64 = self.config.gravity;
        let interact: bool = self.config.enable_interaction;
        let mut snapshot: Vec<Particle> = Vec::new();
        let mut j: usize = 0;
        while j < self.particles.len()
            invariant
                j as int <= self.particles@.len(),
                snapshot@ == self.particles@.subrange(0, j as int),
            decreases self.particles@.len() - j as int,
        {
            let p: Particle = self.particles[j];
            snapshot.push(p);
            proof {
                assert(self.particles@.subrange(0, j as int + 1) =~= self.particles@.subrange(
                    0,
                    j as int,
                ).push(p));
            }
            j = j + 1;
        }
        proof {
            assert(snapshot@ =~= self.particles@);
        }
        let ghost s0 = models(snapshot@);
        let mut i: usize = 0;
        while i < self.particles.len()
            invariant
                i as int <= self.particles@.len(),
                self.particles@.len() == old(self).particles@.len(),
                self.origin == old(self).origin,
                self.edge == old(self).edge,
                self.config == old(self).config,
                forall|k: int|
                    i as int <= k < self.particles@.len() ==> self.particles@[k] == old(
                        self,
                    ).particles@[k],
                forall|k: int|
                    0 <= k < i as int ==> self.particles@[k]@ == step_spec(
                        s0[k],
                        s0,
                        g as int,
                        dt as int,
                        interact,
                    ),
            decreases self.particles@.len() - i as int,
        {
            let mut p: Particle = self.particles[i];
            assert(p@ == old(self)@.particles[i as int]);
            p.tick(dt, g, &snapshot, interact);
            self.particles[i] = p;
            i = i + 1;
        }
        proof {
            assert(models(self.particles@) =~= step_all(
                old(self)@.particles,
                g as int,
                dt as int,
                interact,
            ));
        }
    }

    /// Reflect every particle that has crossed a face of the volume back
    /// inside, damping its velocity along that axis.
    #[verifier::loop_isolation(false)]
    pub fn check_collision(&mut self)
        requires
            all_bounded(old(self)@.particles, RESOLVE_LIMIT as int),
            v3_bounded(old(self)@.origin, COORD_LIMIT as int),
            v3_bounded(old(self)@.edge, COORD_LIMIT as int),
        ensures
            final(self)@.particles == resolve_all(
                old(self)@.particles,
                old(self)@.origin,
                old(self)@.edge,
            ),
            final(self)@.origin == old(self)@.origin,
            final(self)@.edge == old(self)@.edge,
            final(self)@.config == old(self)@.config,
    {
        let mut i: usize = 0;
        while i < self.particles.len()
            invariant
                i as int <= self.particles@.len(),
                self.particles@.len() == old(self).particles@.len(),
                self.origin == old(self).origin,
                self.edge == old(self).edge,
                self.config == old(self).config,
                forall|k: int|
                    i as int <= k < self.particles@.len() ==> self.particles@[k] == old(
                        self,
                    ).particles@[k],
                forall|k: int|
                    0 <= k < i as int ==> self.particles@[k]@ == resolve_spec(
                        old(self)@.particles[k],
                        old(self)@.origin,
                        old(self)@.edge,
                    ),
            decreases self.particles@.len() - i as int,
        {
            let mut p: Particle = self.particles[i];
            assert(p@ == old(self)@.particles[i as int]);
            assert(p_bounded(p@, RESOLVE_LIMIT as int)) by {
                assert(all_bounded(old(self)@.particles, RESOLVE_LIMIT as int));
            }
            proof {
                lemma_fmul_bound(
                    p@.velocity.x,
                    RESTITUTION as int,
                    RESOLVE_LIMIT as int,
                    RESTITUTION as int,
                );
                lemma_fmul_bound(
                    p@.velocity.y,
                    RESTITUTION as int,
                    RESOLVE_LIMIT as int,
                    RESTITUTION as int,
                );
                lemma_fmul_bound(
                    p@.velocity.z,
                    RESTITUTION as int,
                    RESOLVE_LIMIT as int,
                    RESTITUTION as int,
                );
            }
            if p.position.x < self.origin.x {
                p.position.x = self.origin.x - (p.position.x - self.origin.x);
                p.velocity.x = -fmul(p.velocity.x, RESTITUTION);
            }
            if p.position.y < self.origin.y {
                p.position.y = self.origin.y - (p.position.y - self.origin.y);
                p.velocity.y = -fmul(p.velocity.y, RESTITUTION);
            }
            if p.position.z < self.origin.z {
                p.position.z = self.origin.z - (p.position.z - self.origin.z);
                p.velocity.z = -fmul(p.velocity.z, RESTITUTION);
            }
            proof {
                lemma_fmul_bound(
                    p@.velocity.x,
                    RESTITUTION as int,
                    RESOLVE_LIMIT as int,
                    RESTITUTION as int,
                );
                lemma_fmul_bound(
                    p@.velocity.y,
                    RESTITUTION as int,
                    RESOLVE_LIMIT as int,
                    RESTITUTION as int,
                );
                lemma_fmul_bound(
                    p@.velocity.z,
                    RESTITUTION as int,
                    RESOLVE_LIMIT as int,
                    RESTITUTION as int,
                );
            }
            if p.position.x > self.edge.x {
                p.position.x = self.edge.x - (p.position.x - self.edge.x);
                p.velocity.x = -fmul(p.velocity.x, RESTITUTION);
            }
            if p.position.y > self.edge.y {
                p.position.y = self.edge.y - (p.position.y - self.edge.y);
                p.velocity.y = -fmul(p.velocity.y, RESTITUTION);
            }
            if p.position.z > self.edge.z {
                p.position.z = self.edge.z - (p.position.z - self.edge.z);
                p.velocity.z = -fmul(p.velocity.z, RESTITUTION);
            }
            assert(p@ == resolve_spec(
                old(self)@.particles[i as int],
                old(self)@.origin,
                old(self)@.edge,
            ));
            self.particles[i] = p;
            i = i + 1;
        }
        proof {
            assert(models(self.particles@) =~= resolve_all(
                old(self)@.particles,
                old(self)@.origin,
                old(self)@.edge,
            ));
        }
    }

    /// The vertical extent of the volume: the far corner's `y`.
    pub fn height(&self) -> (r: i64)
        ensures
            r as int == self@.edge.y,
    {
        self.edge.y
    }

    /// The horizontal extent of the volume: the far corner's `x`.
    pub fn width(&self) -> (r: i64)
        ensures
            r as int == self@.edge.x,
    {
        self.edge.x
    }

    /// The depth extent of the volume: the far corner's `z`.
    pub fn depth(&self) -> (r: i64)
        ensures
            r as int == self@.edge.z,
    {
        self.edge.z
    }

    /// Move the far corner's `y`; takes effect from the next pass on.
    pub fn update_height(&mut self, height: i64)
        ensures
            final(self)@ == (SimState {
                edge: V3 { y: height as int, ..old(self)@.edge },
                ..old(self)@
            }),
    {
        self.edge.y = height;
    }

    /// Move the far corner's `x`; takes effect from the next pass on.
    pub fn update_width(&mut self, width: i64)
        ensures
            final(self)@ == (SimState {
                edge: V3 { x: width as int, ..old(self)@.edge },
                ..old(self)@
            }),
    {
        self.edge.x = width;
    }

    /// Move the far corner's `z`; takes effect from the next pass on.
    pub fn update_depth(&mut self, depth: i64)
        ensures
            final(self)@ == (SimState {
                edge: V3 { z: depth as int, ..old(self)@.edge },
                ..old(self)@
            }),
    {
        self.edge.z = depth;
    }

    /// Read-only view of the particle population.
    pub fn particles(&self) -> (r: &Vec<Particle>)
        ensures
            models(r@) == self@.particles,
    {
        &self.particles
    }

    /// Number of particles.
    pub fn particle_count(&self) -> (r: u32)
        requires
            self@.particles.len() <= u32::MAX as int,
        ensures
            r as int == self@.particles.len(),
    {
        self.particles.len() as u32
    }

    /// The configured gravity.
    pub fn gravity(&self) -> (r: i64)
        ensures
            r as int == self@.config.gravity as int,
    {
        self.config.gravity
    }

    /// Change the gravity; takes effect from the next step on.
    pub fn update_gravity(&mut self, g: i64)
        ensures
            final(self)@ == (SimState {
                config: Config { gravity: g, ..old(self)@.config },
                ..old(self)@
            }),
    {
        self.config.gravity = g;
    }
}

} // verus!
