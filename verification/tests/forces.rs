//! The force model and the constraint model on concrete values.

use particles_system::units;
use particles_system::vector::Vector3;
use particles_system::ExternalConstraint;
use particles_system::ExternalForce;
use particles_system::Force;
use particles_system::Particle;
use particles_system::Plane;
use particles_system::SimulationError;
use particles_system::Sphere;

const S: i64 = 1_000_000_000;

fn particle(px: i64, py: i64, pz: i64, vx: i64, vy: i64, vz: i64, mass: i64) -> Particle {
    Particle {
        position: Vector3::new(px, py, pz),
        velocity: Vector3::new(vx, vy, vz),
        mass,
    }
}

#[test]
fn elastic_equilibrium_force_is_zero() {
    // separation exactly d0 = 0.5, no velocity: the force is exactly zero
    let a = particle(0, 0, 0, 0, 0, 0, S);
    let b = particle(S / 2, 0, 0, 0, 0, 0, S);
    let f = Force::Elastic(S, S / 2);
    let on_a = f.acting_on_a(&a, &b).unwrap();
    assert_eq!((on_a.x, on_a.y, on_a.z), (0, 0, 0));
    let on_b = f.acting_on_b(&a, &b).unwrap();
    assert_eq!((on_b.x, on_b.y, on_b.z), (0, 0, 0));
}

#[test]
fn elastic_stretched_attracts() {
    // separation 1.0, rest length 0.5, k = 1: force on a is +0.5 along x
    let a = particle(0, 0, 0, 0, 0, 0, S);
    let b = particle(S, 0, 0, 0, 0, 0, S);
    let f = Force::Elastic(S, S / 2);
    let on_a = f.acting_on_a(&a, &b).unwrap();
    assert_eq!((on_a.x, on_a.y, on_a.z), (S / 2, 0, 0));
}

#[test]
fn newton_third_law_exact() {
    let a = particle(0, 0, 0, S / 4, 0, 0, S);
    let b = particle(S, S / 2, 0, 0, -S / 8, 0, 2 * S);
    for f in [
        Force::Elastic(3 * S / 2, S / 3),
        Force::Damping(S / 2),
        Force::Gravitational,
        Force::Sticky(S / 5, S / 3, 10 * S, 99 * S),
    ] {
        let on_a = f.acting_on_a(&a, &b).unwrap();
        let on_b = f.acting_on_b(&a, &b).unwrap();
        assert_eq!((on_b.x, on_b.y, on_b.z), (-on_a.x, -on_a.y, -on_a.z));
    }
}

#[test]
fn damping_opposes_relative_radial_velocity() {
    // b recedes from a along x at 1.0; c = 0.5 pulls them together
    let a = particle(0, 0, 0, 0, 0, 0, S);
    let b = particle(S, 0, 0, S, 0, 0, S);
    let f = Force::Damping(S / 2);
    let on_a = f.acting_on_a(&a, &b).unwrap();
    assert_eq!((on_a.x, on_a.y, on_a.z), (S / 2, 0, 0));
}

#[test]
fn gravitational_inverse_square() {
    // two unit masses at distance 2.0: force magnitude 1/4
    let a = particle(0, 0, 0, 0, 0, 0, S);
    let b = particle(2 * S, 0, 0, 0, 0, 0, S);
    let on_a = Force::Gravitational.acting_on_a(&a, &b).unwrap();
    assert_eq!((on_a.x, on_a.y, on_a.z), (S / 4, 0, 0));
}

#[test]
fn sticky_zones() {
    let a = particle(0, 0, 0, 0, 0, 0, S);
    let f = Force::Sticky(S / 5, 31 * S / 100, 10 * S, 99 * S);
    // beyond d_max: zero force
    let far = particle(S, 0, 0, 0, 0, 0, S);
    let on_a = f.acting_on_a(&a, &far).unwrap();
    assert_eq!((on_a.x, on_a.y, on_a.z), (0, 0, 0));
    // in the sticky zone (d_well < d <= d_max): attraction of magnitude 10
    let near = particle(S / 4, 0, 0, 0, 0, 0, S);
    let on_a = f.acting_on_a(&a, &near).unwrap();
    assert_eq!((on_a.x, on_a.y, on_a.z), (10 * S, 0, 0));
    // inside the well (d <= d_well): repulsion of magnitude 99
    let close = particle(S / 10, 0, 0, 0, 0, 0, S);
    let on_a = f.acting_on_a(&a, &close).unwrap();
    assert_eq!((on_a.x, on_a.y, on_a.z), (-99 * S, 0, 0));
}

#[test]
fn zero_separation_is_degenerate() {
    let a = particle(S, S, S, 0, 0, 0, S);
    let b = particle(S, S, S, 0, 0, 0, S);
    for f in [Force::Elastic(S, S / 2), Force::Damping(S / 2), Force::Gravitational] {
        assert_eq!(f.acting_on_a(&a, &b), Err(SimulationError::DegenerateGeometry));
    }
}

#[test]
fn linear_drag_opposes_velocity() {
    let a = particle(0, 0, 0, 2 * S, -4 * S, 0, S);
    let f = ExternalForce::LinearDrag(S / 2);
    let force = f.calculate_force(&a).unwrap();
    assert_eq!((force.x, force.y, force.z), (-S, 2 * S, 0));
}

#[test]
fn uniform_gravity_scales_with_mass() {
    let a = particle(0, 0, 0, 0, 0, 0, 3 * S);
    let g = ExternalForce::Gravitational(Vector3::new(0, -S, 0));
    let force = g.calculate_force(&a).unwrap();
    assert_eq!((force.x, force.y, force.z), (0, -3 * S, 0));
}

#[test]
fn sphere_reflection_flips_radial_velocity() {
    // on the boundary, moving purely radially outward: the velocity is
    // exactly sign-flipped, the position untouched
    let sphere = Sphere::<units::Position> {
        center: Vector3::new(0, 0, 0),
        radius: S,
    };
    let p = particle(S, 0, 0, S, 0, 0, S);
    let c = ExternalConstraint::spherical_container(sphere);
    let (pos, vel) = c.compute_new_dynamical_variables(&p).unwrap();
    assert_eq!((pos.x, pos.y, pos.z), (S, 0, 0));
    assert_eq!((vel.x, vel.y, vel.z), (-S, 0, 0));
}

#[test]
fn sphere_leaves_interior_particle_alone() {
    let sphere = Sphere::<units::Position> {
        center: Vector3::new(0, 0, 0),
        radius: S,
    };
    let p = particle(S / 2, 0, 0, S, S, S, S);
    let c = ExternalConstraint::spherical_container(sphere);
    let (pos, vel) = c.compute_new_dynamical_variables(&p).unwrap();
    assert_eq!((pos.x, pos.y, pos.z), (S / 2, 0, 0));
    assert_eq!((vel.x, vel.y, vel.z), (S, S, S));
}

#[test]
fn wall_reflects_only_on_forbidden_side() {
    let wall = Plane::<units::Position> {
        position: Vector3::new(0, 0, 0),
        normal: Vector3::new(0, S, 0),
    };
    let c = ExternalConstraint::infinite_wall(wall);
    // below the wall, moving down: the normal velocity component flips
    let crossing = particle(0, -S / 2, 0, S / 4, -S, 0, S);
    let (pos, vel) = c.compute_new_dynamical_variables(&crossing).unwrap();
    assert_eq!((pos.x, pos.y, pos.z), (0, -S / 2, 0));
    assert_eq!((vel.x, vel.y, vel.z), (S / 4, S, 0));
    // on the permitted side nothing changes
    let above = particle(0, S / 2, 0, S / 4, -S, 0, S);
    let (pos, vel) = c.compute_new_dynamical_variables(&above).unwrap();
    assert_eq!((pos.x, pos.y, pos.z), (0, S / 2, 0));
    assert_eq!((vel.x, vel.y, vel.z), (S / 4, -S, 0));
}
