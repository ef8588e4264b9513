//! Unit tags for kinematic vectors.
//!
//! Each physical quantity gets its own nominal vector type, so that a
//! position can never be mistaken for a velocity at an API boundary.  The
//! tags carry no data and are never constructed: they exist only as type
//! parameters of [`crate::vector::Vector3`].  Each holds one token
//! variant because the verifier asks every enum for an inhabitant.

use vstd::prelude::*;

verus! {

/// Tag of position vectors (length units).
#[derive(Clone, Copy, Debug, PartialEq, Eq)]
pub enum Position {
    Tag,
}

/// Tag of velocity vectors (length/time units).
#[derive(Clone, Copy, Debug, PartialEq, Eq)]
pub enum Velocity {
    Tag,
}

/// Tag of acceleration vectors (length/time^2 units).
#[derive(Clone, Copy, Debug, PartialEq, Eq)]
pub enum Acceleration {
    Tag,
}

/// Tag of force vectors.
#[derive(Clone, Copy, Debug, PartialEq, Eq)]
pub enum Force {
    Tag,
}

/// Masses are plain fixed-point scalars.
pub type Mass = i64;

} // verus!
