//! Component-level tests: vector arithmetic, the pseudo-random source,
//! and particle creation.

use particle_sim::particle::Particle;
use particle_sim::rng::Rng;
use particle_sim::vector::Vector3D;

#[test]
fn vector_componentwise_sum_and_difference() {
    let a = Vector3D { x: 1_000, y: -2_000, z: 3_000 };
    let b = Vector3D { x: 10, y: 20, z: -30 };
    assert_eq!(a.plus(&b), Vector3D { x: 1_010, y: -1_980, z: 2_970 });
    assert_eq!(a.minus(&b), Vector3D { x: 990, y: -2_020, z: 3_030 });
}

#[test]
fn vector_scalar_multiple_rescales() {
    // 1.5 scaled by 0.5 is 0.75
    let a = Vector3D { x: 1_500, y: -1_500, z: 3_000 };
    assert_eq!(a.scaled(500), Vector3D { x: 750, y: -750, z: 1_500 });
}

#[test]
fn vector_scalar_multiple_truncates_toward_zero() {
    // 0.999 * 0.001 truncates to zero from either sign
    let a = Vector3D { x: 999, y: -999, z: 1_999 };
    assert_eq!(a.scaled(1), Vector3D { x: 0, y: 0, z: 1 });
}

#[test]
fn vector_equality_is_componentwise() {
    let a = Vector3D { x: 1, y: 2, z: 3 };
    let b = Vector3D { x: 1, y: 2, z: 3 };
    let c = Vector3D { x: 1, y: 2, z: 4 };
    assert_eq!(a, b);
    assert_ne!(a, c);
}

#[test]
fn rng_values_stay_below_bound() {
    let mut rng = Rng::new(42);
    for _ in 0..1000 {
        assert!(rng.next_below(7) < 7);
        assert!(rng.next_below(1) == 0);
        assert!(rng.next_below(500_000) < 500_000);
    }
}

#[test]
fn rng_values_spread() {
    // not a statistical claim, only that the source is not constant
    let mut rng = Rng::new(1);
    let first = rng.next_below(1_000_000);
    let mut varied = false;
    for _ in 0..100 {
        if rng.next_below(1_000_000) != first {
            varied = true;
        }
    }
    assert!(varied);
}

#[test]
fn new_particle_within_spans() {
    let mut rng = Rng::new(7);
    for _ in 0..100 {
        let p = Particle::new(&mut rng);
        assert!(0 <= p.position.x && p.position.x < 500_000);
        assert!(0 <= p.position.y && p.position.y < 500_000);
        assert!(0 <= p.position.z && p.position.z < 500_000);
        assert!(0 <= p.velocity.x && p.velocity.x < 10_000);
        assert!(0 <= p.velocity.y && p.velocity.y < 10_000);
        assert!(0 <= p.velocity.z && p.velocity.z < 10_000);
    }
}
