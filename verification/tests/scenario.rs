//! A long confined run: four particles in an elastic, damped ring inside
//! a unit sphere never drift beyond the boundary by more than a small
//! tolerance.

use particles_system::vector::Vector3;
use particles_system::Constraint;
use particles_system::ExternalConstraint;
use particles_system::Force;
use particles_system::Interaction;
use particles_system::Particle;
use particles_system::ParticlesSystem;
use particles_system::Sphere;

const S: i64 = 1_000_000_000;

#[test]
fn ring_in_unit_sphere_stays_confined() {
    let mut system = ParticlesSystem::new();
    let positions = [(S, 0, 0), (0, S, 0), (-S, 0, 0), (0, -S, 0)];
    for &(x, y, z) in positions.iter() {
        system
            .add_particle(Particle {
                position: Vector3::new(x, y, z),
                velocity: Vector3::new(0, 0, 0),
                mass: S,
            })
            .unwrap();
    }
    for i in 0..4usize {
        let j = (i + 1) % 4;
        system
            .add_interaction(Interaction::force_between_two_particles(i, j, Force::Elastic(S, S / 2)))
            .unwrap();
        system
            .add_interaction(Interaction::force_between_two_particles(i, j, Force::Damping(S / 2)))
            .unwrap();
        system
            .add_constraint(Constraint::external_constraint(
                i,
                ExternalConstraint::spherical_container(Sphere {
                    center: Vector3::new(0, 0, 0),
                    radius: S,
                }),
            ))
            .unwrap();
    }
    // dt = 1e-5, 99,999 iterations, one snapshot every 999 steps
    let dt: i64 = 10_000;
    let bound = (S + S / 1000) as i128;
    let bound_sq = bound * bound;
    for n_time in 1..99_999u64 {
        system.advance_time(dt).unwrap();
        if n_time % 999 == 0 {
            let snap = system.snapshot();
            for row in &snap.particles {
                let x = row.position.x as i128;
                let y = row.position.y as i128;
                let z = row.position.z as i128;
                assert!(x * x + y * y + z * z <= bound_sq);
            }
        }
    }
}
