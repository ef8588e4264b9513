//! Snapshots, export and restore.

use particles_system::vector::Vector3;
use particles_system::Constraint;
use particles_system::ExternalConstraint;
use particles_system::Force;
use particles_system::Interaction;
use particles_system::Particle;
use particles_system::ParticlesSystem;
use particles_system::SimulationError;
use particles_system::Sphere;

const S: i64 = 1_000_000_000;
const DT: i64 = 10_000;

fn particle(px: i64, py: i64, pz: i64, vx: i64, vy: i64, vz: i64, mass: i64) -> Particle {
    Particle {
        position: Vector3::new(px, py, pz),
        velocity: Vector3::new(vx, vy, vz),
        mass,
    }
}

fn sample_system() -> ParticlesSystem {
    let mut system = ParticlesSystem::new();
    system.add_particle(particle(S, 0, 0, 0, S / 8, 0, S)).unwrap();
    system.add_particle(particle(0, S, 0, -S / 8, 0, 0, 2 * S)).unwrap();
    system
        .add_interaction(Interaction::force_between_two_particles(0, 1, Force::Elastic(S, S / 2)))
        .unwrap();
    system
        .add_interaction(Interaction::force_between_two_particles(0, 1, Force::Damping(S / 2)))
        .unwrap();
    system
        .add_constraint(Constraint::external_constraint(
            0,
            ExternalConstraint::spherical_container(Sphere {
                center: Vector3::new(0, 0, 0),
                radius: 2 * S,
            }),
        ))
        .unwrap();
    system
}

#[test]
fn snapshot_carries_state_and_sequence() {
    let mut system = sample_system();
    system.advance_time(DT).unwrap();
    let snap = system.snapshot();
    assert_eq!(snap.sequence_index, 0);
    assert_eq!(snap.time, DT);
    assert_eq!(snap.particles.len(), 2);
    for (i, row) in snap.particles.iter().enumerate() {
        assert_eq!(row.n_particle, i);
        assert_eq!(row.position, system.particles[i].position);
        assert_eq!(row.velocity, system.particles[i].velocity);
        assert_eq!(row.mass, system.particles[i].mass);
    }
}

#[test]
fn snapshot_without_advance_changes_only_the_sequence() {
    let mut system = sample_system();
    system.advance_time(DT).unwrap();
    let first = system.snapshot();
    let second = system.snapshot();
    assert_eq!(first.time, second.time);
    assert_eq!(first.particles, second.particles);
    assert_eq!(first.sequence_index, 0);
    assert_eq!(second.sequence_index, 1);
}

#[test]
fn export_restore_reproduces_the_system() {
    let mut system = sample_system();
    for _ in 0..50 {
        system.advance_time(DT).unwrap();
    }
    system.snapshot();
    let restored = ParticlesSystem::restore(system.export()).unwrap();
    assert_eq!(restored.particles, system.particles);
    assert_eq!(restored.interactions, system.interactions);
    assert_eq!(restored.constraints, system.constraints);
    assert_eq!(restored.time, system.time);
    assert_eq!(restored.n_snapshots_saved, system.n_snapshots_saved);
}

#[test]
fn restored_system_continues_bit_identically() {
    let mut original = sample_system();
    for _ in 0..25 {
        original.advance_time(DT).unwrap();
    }
    let mut resumed = ParticlesSystem::restore(original.export()).unwrap();
    for _ in 0..25 {
        original.advance_time(DT).unwrap();
        resumed.advance_time(DT).unwrap();
    }
    assert_eq!(original.particles, resumed.particles);
    assert_eq!(original.time, resumed.time);
}

#[test]
fn restore_validates_indices() {
    let mut state = sample_system().export();
    state.interactions.push(Interaction::external_force(
        9,
        particles_system::ExternalForce::LinearDrag(S),
    ));
    assert_eq!(ParticlesSystem::restore(state).unwrap_err(), SimulationError::IndexOutOfRange);
}

#[test]
fn restore_validates_particles() {
    let mut state = sample_system().export();
    state.particles[0].mass = 0;
    assert_eq!(ParticlesSystem::restore(state).unwrap_err(), SimulationError::InvalidParameter);
}

#[test]
fn restore_validates_geometry_and_clock() {
    let mut state = sample_system().export();
    state.constraints[0] = Constraint::external_constraint(
        0,
        ExternalConstraint::spherical_container(Sphere {
            center: Vector3::new(0, 0, 0),
            radius: -S,
        }),
    );
    assert_eq!(
        ParticlesSystem::restore(state).unwrap_err(),
        SimulationError::InvalidParameter
    );
    let mut state = sample_system().export();
    state.time = -1;
    assert_eq!(
        ParticlesSystem::restore(state).unwrap_err(),
        SimulationError::InvalidParameter
    );
}
