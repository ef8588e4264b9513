//! A verified particle-dynamics simulation engine.
//!
//! Point masses evolve under pairwise and external forces, subject to
//! reflective geometric constraints, advanced through discrete time steps.
//! All kinematic quantities are fixed-point scalars (see [`fx`]), so every
//! arithmetic step of a simulation is exact and fully specified.

pub mod fx;
pub mod units;
pub mod vector;
pub mod geometric_objects;
pub mod particles_system;
pub mod laws;

pub use crate::geometric_objects::Plane;
pub use crate::geometric_objects::Sphere;
pub use crate::particles_system::Constraint;
pub use crate::particles_system::ExternalConstraint;
pub use crate::particles_system::ExternalForce;
pub use crate::particles_system::Force;
pub use crate::particles_system::Interaction;
pub use crate::particles_system::Particle;
pub use crate::particles_system::ParticlesSystem;
pub use crate::particles_system::SimulationError;
pub use crate::particles_system::Snapshot;
pub use crate::particles_system::SnapshotRow;
pub use crate::particles_system::SystemState;
pub use crate::vector::Vector3;
