//! The particle store, construction-time validation and the integrator.

use particles_system::vector::Vector3;
use particles_system::Constraint;
use particles_system::ExternalConstraint;
use particles_system::ExternalForce;
use particles_system::Force;
use particles_system::Interaction;
use particles_system::Particle;
use particles_system::ParticlesSystem;
use particles_system::Plane;
use particles_system::SimulationError;
use particles_system::Sphere;

const S: i64 = 1_000_000_000;
const DT: i64 = 10_000;

fn particle(px: i64, py: i64, pz: i64, vx: i64, vy: i64, vz: i64, mass: i64) -> Particle {
    Particle {
        position: Vector3::new(px, py, pz),
        velocity: Vector3::new(vx, vy, vz),
        mass,
    }
}

#[test]
fn add_particle_returns_stable_indices() {
    let mut system = ParticlesSystem::new();
    assert_eq!(system.add_particle(particle(0, 0, 0, 0, 0, 0, S)), Ok(0));
    assert_eq!(system.add_particle(particle(S, 0, 0, 0, 0, 0, S)), Ok(1));
    assert_eq!(system.add_particle(particle(0, S, 0, 0, 0, 0, S)), Ok(2));
    assert_eq!(system.particles.len(), 3);
}

#[test]
fn non_positive_mass_is_invalid() {
    let mut system = ParticlesSystem::new();
    assert_eq!(
        system.add_particle(particle(0, 0, 0, 0, 0, 0, 0)),
        Err(SimulationError::InvalidParameter)
    );
    assert_eq!(
        system.add_particle(particle(0, 0, 0, 0, 0, 0, -S)),
        Err(SimulationError::InvalidParameter)
    );
    assert_eq!(system.particles.len(), 0);
}

#[test]
fn interaction_index_is_checked_at_registration() {
    let mut system = ParticlesSystem::new();
    system.add_particle(particle(0, 0, 0, 0, 0, 0, S)).unwrap();
    assert_eq!(
        system.add_interaction(Interaction::force_between_two_particles(
            0,
            1,
            Force::Elastic(S, S / 2)
        )),
        Err(SimulationError::IndexOutOfRange)
    );
    assert_eq!(
        system.add_interaction(Interaction::external_force(3, ExternalForce::LinearDrag(S))),
        Err(SimulationError::IndexOutOfRange)
    );
    assert_eq!(system.interactions.len(), 0);
    system.add_particle(particle(S, 0, 0, 0, 0, 0, S)).unwrap();
    assert_eq!(
        system.add_interaction(Interaction::force_between_two_particles(
            0,
            1,
            Force::Elastic(S, S / 2)
        )),
        Ok(())
    );
}

#[test]
fn constraint_validation_rejects_bad_geometry() {
    let mut system = ParticlesSystem::new();
    system.add_particle(particle(0, 0, 0, 0, 0, 0, S)).unwrap();
    // index out of range
    assert_eq!(
        system.add_constraint(Constraint::external_constraint(
            1,
            ExternalConstraint::spherical_container(Sphere {
                center: Vector3::new(0, 0, 0),
                radius: S,
            })
        )),
        Err(SimulationError::IndexOutOfRange)
    );
    // non-positive radius
    assert_eq!(
        system.add_constraint(Constraint::external_constraint(
            0,
            ExternalConstraint::spherical_container(Sphere {
                center: Vector3::new(0, 0, 0),
                radius: 0,
            })
        )),
        Err(SimulationError::InvalidParameter)
    );
    // zero-length normal
    assert_eq!(
        system.add_constraint(Constraint::external_constraint(
            0,
            ExternalConstraint::infinite_wall(Plane {
                position: Vector3::new(0, 0, 0),
                normal: Vector3::new(0, 0, 0),
            })
        )),
        Err(SimulationError::InvalidParameter)
    );
    assert_eq!(system.constraints.len(), 0);
    // a valid sphere is accepted
    assert_eq!(
        system.add_constraint(Constraint::external_constraint(
            0,
            ExternalConstraint::spherical_container(Sphere {
                center: Vector3::new(0, 0, 0),
                radius: S,
            })
        )),
        Ok(())
    );
}

#[test]
fn get_and_set_are_bounds_checked() {
    let mut system = ParticlesSystem::new();
    system.add_particle(particle(0, 0, 0, 0, 0, 0, S)).unwrap();
    assert_eq!(system.get(0), Ok(particle(0, 0, 0, 0, 0, 0, S)));
    assert_eq!(system.get(1), Err(SimulationError::IndexOutOfRange));
    let replacement = particle(S, S, S, 0, 0, 0, 2 * S);
    assert_eq!(system.set(1, replacement), Err(SimulationError::IndexOutOfRange));
    assert_eq!(
        system.set(0, particle(0, 0, 0, 0, 0, 0, 0)),
        Err(SimulationError::InvalidParameter)
    );
    assert_eq!(system.get(0), Ok(particle(0, 0, 0, 0, 0, 0, S)));
    assert_eq!(system.set(0, replacement), Ok(()));
    assert_eq!(system.get(0), Ok(replacement));
}

#[test]
fn advance_on_empty_system_moves_only_the_clock() {
    let mut system = ParticlesSystem::new();
    assert_eq!(system.advance_time(DT), Ok(()));
    assert_eq!(system.time, DT);
    assert_eq!(system.advance_time(DT), Ok(()));
    assert_eq!(system.time, 2 * DT);
}

#[test]
fn equilibrium_pair_stays_put() {
    // separation exactly d0: zero acceleration, so nothing moves
    let mut system = ParticlesSystem::new();
    system.add_particle(particle(0, 0, 0, 0, 0, 0, S)).unwrap();
    system.add_particle(particle(S / 2, 0, 0, 0, 0, 0, S)).unwrap();
    system
        .add_interaction(Interaction::force_between_two_particles(0, 1, Force::Elastic(S, S / 2)))
        .unwrap();
    for _ in 0..100 {
        system.advance_time(DT).unwrap();
    }
    assert_eq!(system.particles[0], particle(0, 0, 0, 0, 0, 0, S));
    assert_eq!(system.particles[1], particle(S / 2, 0, 0, 0, 0, 0, S));
}

fn momentum(system: &ParticlesSystem) -> (i128, i128, i128) {
    let mut m = (0i128, 0i128, 0i128);
    for p in &system.particles {
        m.0 += p.mass as i128 * p.velocity.x as i128;
        m.1 += p.mass as i128 * p.velocity.y as i128;
        m.2 += p.mass as i128 * p.velocity.z as i128;
    }
    m
}

#[test]
fn momentum_exactly_conserved_for_equal_mass_pair() {
    let mut system = ParticlesSystem::new();
    system.add_particle(particle(0, 0, 0, S / 4, 0, 0, S)).unwrap();
    system.add_particle(particle(S, S / 2, 0, 0, -S / 8, 0, S)).unwrap();
    system
        .add_interaction(Interaction::force_between_two_particles(0, 1, Force::Elastic(S, S / 2)))
        .unwrap();
    system
        .add_interaction(Interaction::force_between_two_particles(1, 0, Force::Damping(S / 2)))
        .unwrap();
    let before = momentum(&system);
    for _ in 0..500 {
        system.advance_time(DT).unwrap();
    }
    assert_eq!(momentum(&system), before);
}

#[test]
fn momentum_nearly_conserved_for_three_bodies() {
    let mut system = ParticlesSystem::new();
    system.add_particle(particle(0, 0, 0, 0, 0, 0, S)).unwrap();
    system.add_particle(particle(S, 0, 0, 0, S / 4, 0, 2 * S)).unwrap();
    system.add_particle(particle(0, S, 0, -S / 4, 0, 0, 3 * S)).unwrap();
    for (i, j) in [(0usize, 1usize), (1, 2), (2, 0)] {
        system
            .add_interaction(Interaction::force_between_two_particles(
                i,
                j,
                Force::Elastic(S, S / 2),
            ))
            .unwrap();
        system
            .add_interaction(Interaction::force_between_two_particles(i, j, Force::Damping(S / 2)))
            .unwrap();
    }
    let before = momentum(&system);
    let steps = 500;
    for _ in 0..steps {
        system.advance_time(DT).unwrap();
    }
    let after = momentum(&system);
    // each step may round each particle's velocity change by one unit,
    // which moves the momentum sum by up to that particle's mass
    let tolerance = steps as i128 * 100 * S as i128;
    assert!((after.0 - before.0).abs() <= tolerance);
    assert!((after.1 - before.1).abs() <= tolerance);
    assert!((after.2 - before.2).abs() <= tolerance);
}

fn kinetic_energy(system: &ParticlesSystem) -> i128 {
    let mut ke = 0i128;
    for p in &system.particles {
        let vx = p.velocity.x as i128;
        let vy = p.velocity.y as i128;
        let vz = p.velocity.z as i128;
        ke += p.mass as i128 * (vx * vx + vy * vy + vz * vz);
    }
    ke
}

#[test]
fn damping_never_increases_kinetic_energy() {
    let mut system = ParticlesSystem::new();
    system.add_particle(particle(0, 0, 0, S / 2, 0, 0, S)).unwrap();
    system.add_particle(particle(S, 0, 0, -S / 2, 0, 0, S)).unwrap();
    system
        .add_interaction(Interaction::force_between_two_particles(0, 1, Force::Damping(S / 2)))
        .unwrap();
    let initial = kinetic_energy(&system);
    let mut previous = initial;
    // a unit of velocity rounding moves the energy by about mass * speed
    let slack = 8i128 * S as i128 * S as i128;
    for _ in 0..1000 {
        system.advance_time(DT).unwrap();
        let current = kinetic_energy(&system);
        assert!(current <= previous + slack);
        previous = current;
    }
    assert!(kinetic_energy(&system) < initial);
}

#[test]
fn identical_systems_stay_bit_identical() {
    let build = || {
        let mut system = ParticlesSystem::new();
        system.add_particle(particle(S, 0, 0, 0, S / 8, 0, S)).unwrap();
        system.add_particle(particle(0, S, 0, -S / 8, 0, 0, 2 * S)).unwrap();
        system.add_particle(particle(-S, 0, 0, 0, 0, S / 8, S)).unwrap();
        for (i, j) in [(0usize, 1usize), (1, 2), (2, 0)] {
            system
                .add_interaction(Interaction::force_between_two_particles(
                    i,
                    j,
                    Force::Elastic(S, S / 2),
                ))
                .unwrap();
        }
        system
            .add_interaction(Interaction::external_force(
                0,
                ExternalForce::Gravitational(Vector3::new(0, -S, 0)),
            ))
            .unwrap();
        system
            .add_constraint(Constraint::external_constraint(
                0,
                ExternalConstraint::spherical_container(Sphere {
                    center: Vector3::new(0, 0, 0),
                    radius: 2 * S,
                }),
            ))
            .unwrap();
        system
    };
    let mut first = build();
    let mut second = build();
    for _ in 0..200 {
        first.advance_time(DT).unwrap();
        second.advance_time(DT).unwrap();
    }
    assert_eq!(first.particles, second.particles);
    assert_eq!(first.time, second.time);
}

#[test]
fn overflowing_step_aborts_without_effect() {
    const MAX: i64 = 4_611_686_018_427_387_904;
    let mut system = ParticlesSystem::new();
    system.add_particle(particle(0, 0, 0, MAX, 0, 0, S)).unwrap();
    system
        .add_interaction(Interaction::external_force(0, ExternalForce::LinearDrag(MAX)))
        .unwrap();
    let particles_before = system.particles.clone();
    assert_eq!(system.advance_time(DT), Err(SimulationError::NumericOverflow));
    assert_eq!(system.particles, particles_before);
    assert_eq!(system.time, 0);
}

#[test]
fn clock_overflow_aborts_without_effect() {
    const MAX: i64 = 4_611_686_018_427_387_904;
    let mut state = ParticlesSystem::new().export();
    state.time = MAX;
    let mut system = ParticlesSystem::restore(state).unwrap();
    assert_eq!(system.advance_time(DT), Err(SimulationError::NumericOverflow));
    assert_eq!(system.time, MAX);
}

#[test]
fn degenerate_step_aborts_without_effect() {
    let mut system = ParticlesSystem::new();
    system.add_particle(particle(0, 0, 0, S / 4, 0, 0, S)).unwrap();
    system.add_particle(particle(0, 0, 0, -S / 4, 0, 0, S)).unwrap();
    system
        .add_interaction(Interaction::force_between_two_particles(0, 1, Force::Elastic(S, S / 2)))
        .unwrap();
    let particles_before = system.particles.clone();
    let time_before = system.time;
    assert_eq!(system.advance_time(DT), Err(SimulationError::DegenerateGeometry));
    // no torn state: positions, velocities and the clock are untouched
    assert_eq!(system.particles, particles_before);
    assert_eq!(system.time, time_before);
}
