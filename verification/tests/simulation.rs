//! End-to-end tests of the simulation: stepping, boundary resolution,
//! and the configuration surface.  All values are fixed-point: 1000 is
//! one unit.

use particle_sim::particle::Particle;
use particle_sim::sim::{Config, Simulation};
use particle_sim::vector::Vector3D;

fn particle(px: i64, py: i64, pz: i64, vx: i64, vy: i64, vz: i64) -> Particle {
    Particle {
        position: Vector3D { x: px, y: py, z: pz },
        velocity: Vector3D { x: vx, y: vy, z: vz },
    }
}

fn config(n: usize, gravity: i64, interact: bool) -> Config {
    Config { particle_num: n, gravity, enable_interaction: interact }
}

#[test]
fn config_defaults() {
    let c = Config::new();
    assert_eq!(c.particle_num, 1000);
    assert_eq!(c.gravity, 9810);
    assert!(c.enable_interaction);
}

#[test]
fn count_matches_configuration() {
    let sim = Simulation::new(config(50, 9810, true));
    assert_eq!(sim.particle_count(), 50);
}

#[test]
fn count_stable_under_stepping() {
    let mut sim = Simulation::new(config(30, 9810, true));
    sim.tick(16);
    assert_eq!(sim.particle_count(), 30);
    sim.check_collision();
    assert_eq!(sim.particle_count(), 30);
    sim.tick(16);
    sim.check_collision();
    assert_eq!(sim.particle_count(), 30);
}

#[test]
fn initial_population_in_spans() {
    let sim = Simulation::new(config(100, 9810, false));
    for p in sim.particles() {
        assert!(0 <= p.position.x && p.position.x < 500_000);
        assert!(0 <= p.position.y && p.position.y < 500_000);
        assert!(0 <= p.position.z && p.position.z < 500_000);
        assert!(0 <= p.velocity.x && p.velocity.x < 10_000);
        assert!(0 <= p.velocity.y && p.velocity.y < 10_000);
        assert!(0 <= p.velocity.z && p.velocity.z < 10_000);
    }
}

#[test]
fn default_volume_and_gravity() {
    let sim = Simulation::new(Config::new());
    assert_eq!(sim.width(), 200_000);
    assert_eq!(sim.height(), 200_000);
    assert_eq!(sim.depth(), 200_000);
    assert_eq!(sim.gravity(), 9810);
}

#[test]
fn volume_and_gravity_setters() {
    let mut sim = Simulation::new(config(1, 9810, false));
    sim.update_width(123_000);
    sim.update_height(45_000);
    sim.update_depth(67_000);
    sim.update_gravity(5_000);
    assert_eq!(sim.width(), 123_000);
    assert_eq!(sim.height(), 45_000);
    assert_eq!(sim.depth(), 67_000);
    assert_eq!(sim.gravity(), 5_000);
}

#[test]
fn gravity_only_velocity_after_n_steps() {
    // g = 9.81, dt = 0.1: each step lowers vy by trunc(9810*100/1000) = 981
    let start = particle(0, 100_000, 0, 0, 0, 0);
    let mut sim = Simulation::from_particles(config(1, 9810, false), vec![start]);
    for _ in 0..5 {
        sim.tick(100);
    }
    let p = sim.particles()[0];
    assert_eq!(p.velocity.y, -4905);
    assert_eq!(p.velocity.x, 0);
    assert_eq!(p.velocity.z, 0);
    assert_eq!(p.position.y, 98_530);
}

#[test]
fn free_fall_position_closed_form() {
    // from rest with dt one whole unit, the drop after n steps is
    // g * triangle(n): 9810 * (1+2+3) after three steps
    let start = particle(0, 1_000_000, 0, 0, 0, 0);
    let mut sim = Simulation::from_particles(config(1, 9810, false), vec![start]);
    for _ in 0..3 {
        sim.tick(1000);
    }
    let p = sim.particles()[0];
    assert_eq!(p.position.y, 1_000_000 - 9810 * 6);
    assert_eq!(p.velocity.y, -3 * 9810);
}

#[test]
fn boundary_reflection_near_face() {
    // x = origin - 5 with vx = -3 comes back to origin + 5 with vx = 2.4
    let start = particle(-5_000, 100, 100, -3_000, 0, 0);
    let mut sim = Simulation::from_particles(config(1, 9810, true), vec![start]);
    sim.check_collision();
    let p = sim.particles()[0];
    assert_eq!(p.position.x, 5_000);
    assert_eq!(p.velocity.x, 2_400);
    assert_eq!(p.position.y, 100);
    assert_eq!(p.position.z, 100);
    assert_eq!(p.velocity.y, 0);
    assert_eq!(p.velocity.z, 0);
}

#[test]
fn boundary_reflection_far_face() {
    let start = particle(207_000, 100, 100, 3_000, 0, 0);
    let mut sim = Simulation::from_particles(config(1, 9810, true), vec![start]);
    sim.check_collision();
    let p = sim.particles()[0];
    assert_eq!(p.position.x, 193_000);
    assert_eq!(p.velocity.x, -2_400);
}

#[test]
fn corner_overshoot_bounces_on_both_axes() {
    let start = particle(-5_000, 206_000, 100, -3_000, 1_000, 0);
    let mut sim = Simulation::from_particles(config(1, 9810, true), vec![start]);
    sim.check_collision();
    let p = sim.particles()[0];
    assert_eq!(p.position.x, 5_000);
    assert_eq!(p.velocity.x, 2_400);
    assert_eq!(p.position.y, 194_000);
    assert_eq!(p.velocity.y, -800);
}

#[test]
fn deep_overshoot_reflects_off_both_faces_of_one_axis() {
    // mirrored over the near face, the particle lands beyond the far face
    // and is mirrored again in the same pass, damped twice
    let start = particle(-300_000, 100, 100, -3_000, 0, 0);
    let mut sim = Simulation::from_particles(config(1, 9810, true), vec![start]);
    sim.check_collision();
    let p = sim.particles()[0];
    assert_eq!(p.position.x, 100_000);
    assert_eq!(p.velocity.x, -1_920);
}

#[test]
fn inside_volume_untouched_by_resolution() {
    let start = particle(100, 100, 100, 500, -500, 250);
    let mut sim = Simulation::from_particles(config(1, 9810, true), vec![start]);
    sim.check_collision();
    assert_eq!(sim.particles()[0], start);
}

#[test]
fn coincident_particles_exert_no_force() {
    // identical positions: the pair is skipped, no division is attempted
    let a = particle(70_000, 70_000, 70_000, 0, 0, 0);
    let b = particle(70_000, 70_000, 70_000, 0, 0, 0);
    let mut sim = Simulation::from_particles(config(2, 0, true), vec![a, b]);
    sim.tick(1000);
    assert_eq!(sim.particles()[0], a);
    assert_eq!(sim.particles()[1], b);
}

#[test]
fn cutoff_respected_beyond_radius() {
    // 50 units apart in Manhattan distance, beyond the 40-unit cutoff
    let a = particle(0, 100, 100, 0, 0, 0);
    let b = particle(50_000, 100, 100, 0, 0, 0);
    let mut sim = Simulation::from_particles(config(2, 0, true), vec![a, b]);
    sim.tick(1000);
    assert_eq!(sim.particles()[0], a);
    assert_eq!(sim.particles()[1], b);
}

#[test]
fn pair_repulsion_exact_kick() {
    // 10 units apart along x: scalar force trunc(1000*1000/100000) = 10,
    // each particle kicked away from the other by 10 per axis share
    let a = particle(10_000, 100, 100, 0, 0, 0);
    let b = particle(0, 100, 100, 0, 0, 0);
    let mut sim = Simulation::from_particles(config(2, 0, true), vec![a, b]);
    sim.tick(1000);
    let ra = sim.particles()[0];
    let rb = sim.particles()[1];
    assert_eq!(ra.velocity.x, 10);
    assert_eq!(rb.velocity.x, -10);
    assert_eq!(ra.position.x, 10_010);
    assert_eq!(rb.position.x, -10);
    assert_eq!(ra.velocity.y, 0);
    assert_eq!(rb.velocity.y, 0);
}

#[test]
fn interaction_disabled_skips_repulsion() {
    let a = particle(10_000, 100, 100, 0, 0, 0);
    let b = particle(0, 100, 100, 0, 0, 0);
    let mut sim = Simulation::from_particles(config(2, 0, false), vec![a, b]);
    sim.tick(1000);
    assert_eq!(sim.particles()[0], a);
    assert_eq!(sim.particles()[1], b);
}

#[test]
fn order_independence_of_a_step() {
    let a = particle(0, 0, 0, 0, 0, 0);
    let b = particle(10_000, 0, 0, 0, 0, 0);
    let c = particle(0, 20_000, 0, 0, 0, 0);
    let mut sim1 = Simulation::from_particles(config(3, 9810, true), vec![a, b, c]);
    let mut sim2 = Simulation::from_particles(config(3, 9810, true), vec![c, a, b]);
    sim1.tick(16);
    sim2.tick(16);
    let r1 = sim1.particles();
    let r2 = sim2.particles();
    assert_eq!(r2[0], r1[2]);
    assert_eq!(r2[1], r1[0]);
    assert_eq!(r2[2], r1[1]);
}

#[test]
fn zero_dt_changes_nothing_without_interaction() {
    let a = particle(100, 200, 300, 400, 500, 600);
    let mut sim = Simulation::from_particles(config(1, 9810, false), vec![a]);
    sim.tick(0);
    assert_eq!(sim.particles()[0], a);
}

#[test]
fn negative_dt_accepted_and_exact() {
    // degenerate input: time runs backwards, gravity raises the particle
    let start = particle(0, 100_000, 0, 0, 0, 0);
    let mut sim = Simulation::from_particles(config(1, 9810, false), vec![start]);
    sim.tick(-1000);
    let p = sim.particles()[0];
    assert_eq!(p.velocity.y, 9810);
    assert_eq!(p.position.y, 100_000 - 9810);
}

#[test]
fn step_then_resolve_pulls_escapee_back() {
    // a particle racing left crosses the near face in one step and the
    // resolution pass mirrors it back inside
    let start = particle(1_000, 100_000, 100_000, -5_000, 0, 0);
    let mut sim = Simulation::from_particles(config(1, 0, false), vec![start]);
    sim.tick(1000);
    assert_eq!(sim.particles()[0].position.x, -4_000);
    sim.check_collision();
    let p = sim.particles()[0];
    assert_eq!(p.position.x, 4_000);
    assert_eq!(p.velocity.x, 4_000);
}
