//! The particle system: entity model, force evaluation, constraint
//! resolution and the time integrator.
//!
//! Every quantity is a fixed-point scalar (see [`crate::fx`]), so each
//! step of a simulation is an exact, fully specified function of the
//! state before it.  Failures — a degenerate separation that cannot be
//! normalized, or an intermediate value leaving the scalar range — abort
//! the whole step and leave the system untouched.

use vstd::prelude::*;
use crate::fx;
use crate::fx::fits;
use crate::fx::FX_MAX;
use crate::fx::SCALE;
use crate::geometric_objects::Plane;
use crate::geometric_objects::Sphere;
use crate::units;
use crate::vector::Vector3;

verus! {

/// Why a mutation or a step was refused.
#[derive(Clone, Copy, Debug, PartialEq, Eq, Structural)]
pub enum SimulationError {
    /// An interaction or constraint names a particle index that is not in
    /// the store.
    IndexOutOfRange,
    /// A non-positive mass, a non-positive sphere radius, a zero-length
    /// plane normal, or a scalar outside the representable range.
    InvalidParameter,
    /// Two interacting particles are too close for their separation
    /// direction to be normalized.
    DegenerateGeometry,
    /// An intermediate value of a step left the representable scalar
    /// range; the step was aborted without effect.
    NumericOverflow,
}

/// A point mass in classical mechanics.
#[derive(Clone, Copy, Debug, PartialEq, Eq)]
pub struct Particle {
    pub position: Vector3<units::Position>,
    pub velocity: Vector3<units::Velocity>,
    pub mass: units::Mass,
}

impl Particle {
    /// A valid particle: components in range and a positive mass.
    pub open spec fn wf(self) -> bool {
        self.position.wf() && self.velocity.wf() && 1 <= self.mass <= FX_MAX
    }
}

/// A pairwise force law, with fixed-point parameters.
#[derive(Clone, Copy, Debug, PartialEq, Eq)]
pub enum Force {
    /// The force of an ideal spring; parameters are `(k, d0)`.
    Elastic(i64, i64),
    /// Linear damping; the parameter relates relative radial velocity to
    /// force.
    Damping(i64),
    /// Gravitational attraction by Newton's formula, with unit
    /// gravitational constant.
    Gravitational,
    /// A sticky force; parameters are `(d_well, d_max, f_sticky,
    /// f_repuls)`.  Discontinuous at the zone boundaries by design.
    Sticky(i64, i64, i64, i64),
}

impl Force {
    /// All parameters are in the scalar range.
    pub open spec fn wf(self) -> bool {
        match self {
            Force::Elastic(k, d0) => fits(k as int) && fits(d0 as int),
            Force::Damping(c) => fits(c as int),
            Force::Gravitational => true,
            Force::Sticky(d_well, d_max, f_sticky, f_repuls) => fits(d_well as int) && fits(
                d_max as int,
            ) && fits(f_sticky as int) && fits(f_repuls as int),
        }
    }

    /// The elastic force `normalize(r) * (d - d0) * k`, realized in
    /// fixed point as `r * (k * (d - d0) / d)` with `d` the fixed-point
    /// length of `r`.
    pub open spec fn spec_elastic(
        k: i64,
        d0: i64,
        rv: Vector3<units::Position>,
        d2: i64,
    ) -> Result<Vector3<units::Force>, SimulationError> {
        if d2 == 0 {
            Err(SimulationError::DegenerateGeometry)
        } else {
            let d = fx::fx_sqrt_v(d2);
            match fx::fx_sub_c(d, d0) {
                None => Err(SimulationError::NumericOverflow),
                Some(diff) => match fx::fx_mul_c(k, diff) {
                    None => Err(SimulationError::NumericOverflow),
                    Some(t) => match fx::fx_div_c(t, d) {
                        None => Err(SimulationError::NumericOverflow),
                        Some(s) => match rv.spec_scale(s) {
                            None => Err(SimulationError::NumericOverflow),
                            Some(fv) => Ok(fv.spec_cast_unit()),
                        },
                    },
                },
            }
        }
    }

    /// The damping force `normalize(r) * dot(vB - vA, normalize(r)) * c`,
    /// realized in fixed point as `r * (c * dot(vB - vA, r) / d2)` with
    /// `d2` the fixed-point squared length of `r`.
    pub open spec fn spec_damping(
        c: i64,
        rv: Vector3<units::Position>,
        d2: i64,
        a: Particle,
        b: Particle,
    ) -> Result<Vector3<units::Force>, SimulationError> {
        if d2 == 0 {
            Err(SimulationError::DegenerateGeometry)
        } else {
            match b.velocity.spec_minus(a.velocity) {
                None => Err(SimulationError::NumericOverflow),
                Some(dv) => match dv.spec_dot(rv) {
                    None => Err(SimulationError::NumericOverflow),
                    Some(w) => match fx::fx_mul_c(c, w) {
                        None => Err(SimulationError::NumericOverflow),
                        Some(t) => match fx::fx_div_c(t, d2) {
                            None => Err(SimulationError::NumericOverflow),
                            Some(s) => match rv.spec_scale(s) {
                                None => Err(SimulationError::NumericOverflow),
                                Some(fv) => Ok(fv.spec_cast_unit()),
                            },
                        },
                    },
                },
            }
        }
    }

    /// The gravitational force `normalize(r) * massA * massB / d2`,
    /// realized in fixed point as `r * (massA * massB / (d2 * d))`.
    pub open spec fn spec_gravitational(
        rv: Vector3<units::Position>,
        d2: i64,
        a: Particle,
        b: Particle,
    ) -> Result<Vector3<units::Force>, SimulationError> {
        if d2 == 0 {
            Err(SimulationError::DegenerateGeometry)
        } else {
            let d = fx::fx_sqrt_v(d2);
            match fx::fx_mul_c(d2, d) {
                None => Err(SimulationError::NumericOverflow),
                Some(d3) => if d3 == 0 {
                    Err(SimulationError::DegenerateGeometry)
                } else {
                    match fx::fx_mul_c(a.mass, b.mass) {
                        None => Err(SimulationError::NumericOverflow),
                        Some(mm) => match fx::fx_div_c(mm, d3) {
                            None => Err(SimulationError::NumericOverflow),
                            Some(s) => match rv.spec_scale(s) {
                                None => Err(SimulationError::NumericOverflow),
                                Some(fv) => Ok(fv.spec_cast_unit()),
                            },
                        },
                    }
                },
            }
        }
    }

    /// The sticky force: zero beyond `d_max`, constant attraction inside
    /// the sticky zone, constant repulsion inside the well.
    pub open spec fn spec_sticky(
        d_well: i64,
        d_max: i64,
        f_sticky: i64,
        f_repuls: i64,
        rv: Vector3<units::Position>,
        d2: i64,
    ) -> Result<Vector3<units::Force>, SimulationError> {
        let d = fx::fx_sqrt_v(d2);
        if d > d_max {
            Ok(Vector3::spec_new(0, 0, 0))
        } else if d2 == 0 {
            Err(SimulationError::DegenerateGeometry)
        } else if d > d_well {
            match fx::fx_div_c(f_sticky, d) {
                None => Err(SimulationError::NumericOverflow),
                Some(s) => match rv.spec_scale(s) {
                    None => Err(SimulationError::NumericOverflow),
                    Some(fv) => Ok(fv.spec_cast_unit()),
                },
            }
        } else {
            match fx::fx_div_c(f_repuls, d) {
                None => Err(SimulationError::NumericOverflow),
                Some(s) => match rv.spec_scale(s) {
                    None => Err(SimulationError::NumericOverflow),
                    Some(fv) => Ok(fv.spec_negate().spec_cast_unit()),
                },
            }
        }
    }

    /// The force this interaction exerts on the first particle.
    pub open spec fn spec_acting_on_a(self, a: Particle, b: Particle) -> Result<
        Vector3<units::Force>,
        SimulationError,
    > {
        match b.position.spec_minus(a.position) {
            None => Err(SimulationError::NumericOverflow),
            Some(rv) => match rv.spec_dot(rv) {
                None => Err(SimulationError::NumericOverflow),
                Some(d2) => match self {
                    Force::Elastic(k, d0) => Self::spec_elastic(k, d0, rv, d2),
                    Force::Damping(c) => Self::spec_damping(c, rv, d2, a, b),
                    Force::Gravitational => Self::spec_gravitational(rv, d2, a, b),
                    Force::Sticky(d_well, d_max, f_sticky, f_repuls) => Self::spec_sticky(
                        d_well,
                        d_max,
                        f_sticky,
                        f_repuls,
                        rv,
                        d2,
                    ),
                },
            },
        }
    }

    /// The force on the second particle: the exact negation of the force
    /// on the first (Newton's third law, exact in fixed point).
    pub open spec fn spec_acting_on_b(self, a: Particle, b: Particle) -> Result<
        Vector3<units::Force>,
        SimulationError,
    > {
        match self.spec_acting_on_a(a, b) {
            Ok(fv) => Ok(fv.spec_negate()),
            Err(e) => Err(e),
        }
    }

    /// Computes the force acting on `a` due to this interaction with `b`.
    pub fn acting_on_a(&self, a: &Particle, b: &Particle) -> (r: Result<
        Vector3<units::Force>,
        SimulationError,
    >)
        requires
            self.wf(),
            a.wf(),
            b.wf(),
        ensures
            r == self.spec_acting_on_a(*a, *b),
            r matches Ok(fv) ==> fv.wf(),
    {
        let rv = match b.position.minus(&a.position) {
            Some(v) => v,
            None => {
                return Err(SimulationError::NumericOverflow);
            },
        };
        let d2 = match rv.dot(&rv) {
            Some(v) => v,
            None => {
                return Err(SimulationError::NumericOverflow);
            },
        };
        proof {
            rv.lemma_self_dot_nonneg();
        }
        match *self {
            Force::Elastic(k, d0) => {
                if d2 == 0 {
                    return Err(SimulationError::DegenerateGeometry);
                }
                let d = fx::fx_sqrt(d2);
                let diff = match fx::fx_sub(d, d0) {
                    Some(v) => v,
                    None => {
                        return Err(SimulationError::NumericOverflow);
                    },
                };
                let t = match fx::fx_mul(k, diff) {
                    Some(v) => v,
                    None => {
                        return Err(SimulationError::NumericOverflow);
                    },
                };
                let s = match fx::fx_div(t, d) {
                    Some(v) => v,
                    None => {
                        return Err(SimulationError::NumericOverflow);
                    },
                };
                let fv = match rv.scale(s) {
                    Some(v) => v,
                    None => {
                        return Err(SimulationError::NumericOverflow);
                    },
                };
                Ok(fv.cast_unit())
            },
            Force::Damping(c) => {
                if d2 == 0 {
                    return Err(SimulationError::DegenerateGeometry);
                }
                let dv = match b.velocity.minus(&a.velocity) {
                    Some(v) => v,
                    None => {
                        return Err(SimulationError::NumericOverflow);
                    },
                };
                let w = match dv.dot(&rv) {
                    Some(v) => v,
                    None => {
                        return Err(SimulationError::NumericOverflow);
                    },
                };
                let t = match fx::fx_mul(c, w) {
                    Some(v) => v,
                    None => {
                        return Err(SimulationError::NumericOverflow);
                    },
                };
                let s = match fx::fx_div(t, d2) {
                    Some(v) => v,
                    None => {
                        return Err(SimulationError::NumericOverflow);
                    },
                };
                let fv = match rv.scale(s) {
                    Some(v) => v,
                    None => {
                        return Err(SimulationError::NumericOverflow);
                    },
                };
                Ok(fv.cast_unit())
            },
            Force::Gravitational => {
                if d2 == 0 {
                    return Err(SimulationError::DegenerateGeometry);
                }
                let d = fx::fx_sqrt(d2);
                let d3 = match fx::fx_mul(d2, d) {
                    Some(v) => v,
                    None => {
                        return Err(SimulationError::NumericOverflow);
                    },
                };
                if d3 == 0 {
                    return Err(SimulationError::DegenerateGeometry);
                }
                proof {
                    fx::lemma_tdiv_nonneg(d2 * d, SCALE as int);
                }
                let mm = match fx::fx_mul(a.mass, b.mass) {
                    Some(v) => v,
                    None => {
                        return Err(SimulationError::NumericOverflow);
                    },
                };
                let s = match fx::fx_div(mm, d3) {
                    Some(v) => v,
                    None => {
                        return Err(SimulationError::NumericOverflow);
                    },
                };
                let fv = match rv.scale(s) {
                    Some(v) => v,
                    None => {
                        return Err(SimulationError::NumericOverflow);
                    },
                };
                Ok(fv.cast_unit())
            },
            Force::Sticky(d_well, d_max, f_sticky, f_repuls) => {
                let d = fx::fx_sqrt(d2);
                if d > d_max {
                    return Ok(Vector3::zero());
                }
                if d2 == 0 {
                    return Err(SimulationError::DegenerateGeometry);
                }
                if d > d_well {
                    let s = match fx::fx_div(f_sticky, d) {
                        Some(v) => v,
                        None => {
                            return Err(SimulationError::NumericOverflow);
                        },
                    };
                    let fv = match rv.scale(s) {
                        Some(v) => v,
                        None => {
                            return Err(SimulationError::NumericOverflow);
                        },
                    };
                    Ok(fv.cast_unit())
                } else {
                    let s = match fx::fx_div(f_repuls, d) {
                        Some(v) => v,
                        None => {
                            return Err(SimulationError::NumericOverflow);
                        },
                    };
                    let fv = match rv.scale(s) {
                        Some(v) => v,
                        None => {
                            return Err(SimulationError::NumericOverflow);
                        },
                    };
                    Ok(fv.negate().cast_unit())
                }
            },
        }
    }

    /// Computes the force acting on `b`: the exact negation of
    /// [`Force::acting_on_a`].
    pub fn acting_on_b(&self, a: &Particle, b: &Particle) -> (r: Result<
        Vector3<units::Force>,
        SimulationError,
    >)
        requires
            self.wf(),
            a.wf(),
            b.wf(),
        ensures
            r == self.spec_acting_on_b(*a, *b),
            r matches Ok(fv) ==> fv.wf(),
    {
        match self.acting_on_a(a, b) {
            Ok(fv) => Ok(fv.negate()),
            Err(e) => Err(e),
        }
    }
}

/// A force on one particle due to an external agent.
#[derive(Clone, Copy, Debug, PartialEq, Eq)]
pub enum ExternalForce {
    /// Drag proportional and opposed to the velocity.
    LinearDrag(i64),
    /// A uniform gravitational field given by its acceleration vector.
    Gravitational(Vector3<units::Acceleration>),
}

impl ExternalForce {
    /// All parameters are in the scalar range.
    pub open spec fn wf(self) -> bool {
        match self {
            ExternalForce::LinearDrag(c) => fits(c as int),
            ExternalForce::Gravitational(g) => g.wf(),
        }
    }

    /// The external force on a particle: `-velocity * c` for drag,
    /// `g * mass` for a uniform field.
    pub open spec fn spec_calculate_force(self, a: Particle) -> Result<
        Vector3<units::Force>,
        SimulationError,
    > {
        match self {
            ExternalForce::LinearDrag(c) => match a.velocity.spec_scale(c) {
                None => Err(SimulationError::NumericOverflow),
                Some(t) => Ok(t.spec_negate().spec_cast_unit()),
            },
            ExternalForce::Gravitational(g) => match g.spec_scale(a.mass) {
                None => Err(SimulationError::NumericOverflow),
                Some(t) => Ok(t.spec_cast_unit()),
            },
        }
    }

    /// Computes the external force acting on `a`.
    pub fn calculate_force(&self, a: &Particle) -> (r: Result<
        Vector3<units::Force>,
        SimulationError,
    >)
        requires
            self.wf(),
            a.wf(),
        ensures
            r == self.spec_calculate_force(*a),
            r matches Ok(fv) ==> fv.wf(),
    {
        match *self {
            ExternalForce::LinearDrag(c) => {
                let t = match a.velocity.scale(c) {
                    Some(v) => v,
                    None => {
                        return Err(SimulationError::NumericOverflow);
                    },
                };
                Ok(t.negate().cast_unit())
            },
            ExternalForce::Gravitational(g) => {
                let t = match g.scale(a.mass) {
                    Some(v) => v,
                    None => {
                        return Err(SimulationError::NumericOverflow);
                    },
                };
                Ok(t.cast_unit())
            },
        }
    }
}

/// A reflective geometric boundary for one particle.
#[derive(Clone, Copy, Debug, PartialEq, Eq)]
#[allow(non_camel_case_types)]
pub enum ExternalConstraint {
    /// An infinite wall; the normal points into the permitted half-space.
    infinite_wall(Plane<units::Position>),
    /// A spherical container the particle is reflected back into.
    spherical_container(Sphere<units::Position>),
}

impl ExternalConstraint {
    /// The geometry is valid (see the geometry types' own conditions).
    pub open spec fn wf(self) -> bool {
        match self {
            ExternalConstraint::infinite_wall(w) => w.wf(),
            ExternalConstraint::spherical_container(s) => s.wf(),
        }
    }

    /// The corrected kinematic pair for a wall: when the particle has
    /// crossed to the forbidden side, the velocity component along the
    /// normal is reflected (`v - n * (2 * dot(v, n) / dot(n, n))`); the
    /// position is never corrected.
    pub open spec fn spec_resolve_wall(w: Plane<units::Position>, p: Particle) -> Result<
        (Vector3<units::Position>, Vector3<units::Velocity>),
        SimulationError,
    > {
        match p.position.spec_minus(w.position) {
            None => Err(SimulationError::NumericOverflow),
            Some(diff) => match diff.spec_dot(w.normal) {
                None => Err(SimulationError::NumericOverflow),
                Some(d) => if d < 0 {
                    match w.normal.spec_dot(w.normal) {
                        None => Err(SimulationError::NumericOverflow),
                        Some(n2) => match p.velocity.spec_dot(w.normal) {
                            None => Err(SimulationError::NumericOverflow),
                            Some(vn) => match fx::fx_add_c(vn, vn) {
                                None => Err(SimulationError::NumericOverflow),
                                Some(t) => match fx::fx_div_c(t, n2) {
                                    None => Err(SimulationError::NumericOverflow),
                                    Some(s) => match w.normal.spec_scale(s) {
                                        None => Err(SimulationError::NumericOverflow),
                                        Some(refl) => match p.velocity.spec_minus(
                                            refl.spec_cast_unit(),
                                        ) {
                                            None => Err(SimulationError::NumericOverflow),
                                            Some(nv) => Ok((p.position, nv)),
                                        },
                                    },
                                },
                            },
                        },
                    }
                } else {
                    Ok((p.position, p.velocity))
                },
            },
        }
    }

    /// The corrected kinematic pair for a sphere: strictly inside nothing
    /// changes; on or beyond the boundary the radial velocity component is
    /// reflected (`v - rad * (2 * dot(v, rad) / dot(rad, rad))`); the
    /// position is never corrected, so a particle may transiently remain
    /// outside.
    pub open spec fn spec_resolve_sphere(s: Sphere<units::Position>, p: Particle) -> Result<
        (Vector3<units::Position>, Vector3<units::Velocity>),
        SimulationError,
    > {
        if s.spec_is_inside(p.position) {
            Ok((p.position, p.velocity))
        } else {
            match p.position.spec_minus(s.center) {
                None => Err(SimulationError::NumericOverflow),
                Some(rad) => match rad.spec_dot(rad) {
                    None => Err(SimulationError::NumericOverflow),
                    Some(d2m) => if d2m == 0 {
                        Err(SimulationError::DegenerateGeometry)
                    } else {
                        match p.velocity.spec_dot(rad) {
                            None => Err(SimulationError::NumericOverflow),
                            Some(vr) => match fx::fx_add_c(vr, vr) {
                                None => Err(SimulationError::NumericOverflow),
                                Some(t) => match fx::fx_div_c(t, d2m) {
                                    None => Err(SimulationError::NumericOverflow),
                                    Some(sc) => match rad.spec_scale(sc) {
                                        None => Err(SimulationError::NumericOverflow),
                                        Some(refl) => match p.velocity.spec_minus(
                                            refl.spec_cast_unit(),
                                        ) {
                                            None => Err(SimulationError::NumericOverflow),
                                            Some(nv) => Ok((p.position, nv)),
                                        },
                                    },
                                },
                            },
                        }
                    },
                },
            }
        }
    }

    /// The corrected `(position, velocity)` pair for a particle against
    /// this boundary.
    pub open spec fn spec_resolve(self, p: Particle) -> Result<
        (Vector3<units::Position>, Vector3<units::Velocity>),
        SimulationError,
    > {
        match self {
            ExternalConstraint::infinite_wall(w) => Self::spec_resolve_wall(w, p),
            ExternalConstraint::spherical_container(s) => Self::spec_resolve_sphere(s, p),
        }
    }

    /// Computes the corrected position and velocity of a particle against
    /// this boundary.
    pub fn compute_new_dynamical_variables(&self, particle: &Particle) -> (r: Result<
        (Vector3<units::Position>, Vector3<units::Velocity>),
        SimulationError,
    >)
        requires
            self.wf(),
            particle.wf(),
        ensures
            r == self.spec_resolve(*particle),
            r matches Ok(pv) ==> pv.0.wf() && pv.1.wf(),
    {
        match *self {
            ExternalConstraint::infinite_wall(wall) => {
                let diff = match particle.position.minus(&wall.position) {
                    Some(v) => v,
                    None => {
                        return Err(SimulationError::NumericOverflow);
                    },
                };
                let d = match diff.dot(&wall.normal) {
                    Some(v) => v,
                    None => {
                        return Err(SimulationError::NumericOverflow);
                    },
                };
                if d < 0 {
                    let n2 = match wall.normal.dot(&wall.normal) {
                        Some(v) => v,
                        None => {
                            return Err(SimulationError::NumericOverflow);
                        },
                    };
                    let vn = match particle.velocity.dot(&wall.normal) {
                        Some(v) => v,
                        None => {
                            return Err(SimulationError::NumericOverflow);
                        },
                    };
                    let t = match fx::fx_add(vn, vn) {
                        Some(v) => v,
                        None => {
                            return Err(SimulationError::NumericOverflow);
                        },
                    };
                    let s = match fx::fx_div(t, n2) {
                        Some(v) => v,
                        None => {
                            return Err(SimulationError::NumericOverflow);
                        },
                    };
                    let refl = match wall.normal.scale(s) {
                        Some(v) => v,
                        None => {
                            return Err(SimulationError::NumericOverflow);
                        },
                    };
                    let nv = match particle.velocity.minus(&refl.cast_unit()) {
                        Some(v) => v,
                        None => {
                            return Err(SimulationError::NumericOverflow);
                        },
                    };
                    Ok((particle.position, nv))
                } else {
                    Ok((particle.position, particle.velocity))
                }
            },
            ExternalConstraint::spherical_container(sphere) => {
                if sphere.is_inside(&particle.position) {
                    return Ok((particle.position, particle.velocity));
                }
                let rad = match particle.position.minus(&sphere.center) {
                    Some(v) => v,
                    None => {
                        return Err(SimulationError::NumericOverflow);
                    },
                };
                let d2m = match rad.dot(&rad) {
                    Some(v) => v,
                    None => {
                        return Err(SimulationError::NumericOverflow);
                    },
                };
                proof {
                    rad.lemma_self_dot_nonneg();
                }
                if d2m == 0 {
                    return Err(SimulationError::DegenerateGeometry);
                }
                let vr = match particle.velocity.dot(&rad) {
                    Some(v) => v,
                    None => {
                        return Err(SimulationError::NumericOverflow);
                    },
                };
                let t = match fx::fx_add(vr, vr) {
                    Some(v) => v,
                    None => {
                        return Err(SimulationError::NumericOverflow);
                    },
                };
                let sc = match fx::fx_div(t, d2m) {
                    Some(v) => v,
                    None => {
                        return Err(SimulationError::NumericOverflow);
                    },
                };
                let refl = match rad.scale(sc) {
                    Some(v) => v,
                    None => {
                        return Err(SimulationError::NumericOverflow);
                    },
                };
                let nv = match particle.velocity.minus(&refl.cast_unit()) {
                    Some(v) => v,
                    None => {
                        return Err(SimulationError::NumericOverflow);
                    },
                };
                Ok((particle.position, nv))
            },
        }
    }
}

/// A registered constraint: a particle index and its boundary.
#[derive(Clone, Copy, Debug, PartialEq, Eq)]
#[allow(non_camel_case_types)]
pub enum Constraint {
    external_constraint(usize, ExternalConstraint),
}

/// A registered interaction: either a pairwise force between two stored
/// particles, or an external force on one of them.
#[derive(Clone, Copy, Debug, PartialEq, Eq)]
#[allow(non_camel_case_types)]
pub enum Interaction {
    force_between_two_particles(usize, usize, Force),
    external_force(usize, ExternalForce),
}

impl Interaction {
    /// Indices reference the store of `n` particles and parameters are in
    /// range.
    pub open spec fn wf(self, n: nat) -> bool {
        self.indices_ok(n) && self.params_ok()
    }

    /// The indices reference the store of `n` particles.
    pub open spec fn indices_ok(self, n: nat) -> bool {
        match self {
            Interaction::force_between_two_particles(ia, ib, _) => ia < n && ib < n,
            Interaction::external_force(i, _) => i < n,
        }
    }

    /// The parameters are in the scalar range.
    pub open spec fn params_ok(self) -> bool {
        match self {
            Interaction::force_between_two_particles(_, _, f) => f.wf(),
            Interaction::external_force(_, ef) => ef.wf(),
        }
    }
}

impl Constraint {
    /// The index references the store of `n` particles and the geometry is
    /// valid.
    pub open spec fn wf(self, n: nat) -> bool {
        self.indices_ok(n) && self.params_ok()
    }

    /// The index references the store of `n` particles.
    pub open spec fn indices_ok(self, n: nat) -> bool {
        match self {
            Constraint::external_constraint(i, _) => i < n,
        }
    }

    /// The geometry is valid.
    pub open spec fn params_ok(self) -> bool {
        match self {
            Constraint::external_constraint(_, ec) => ec.wf(),
        }
    }
}

impl Particle {
    /// Tests at run time that the particle is valid.
    pub fn check_wf(&self) -> (b: bool)
        ensures
            b == self.wf(),
    {
        self.position.check_wf() && self.velocity.check_wf() && 1 <= self.mass && self.mass
            <= FX_MAX
    }
}

impl Force {
    /// Tests at run time that all parameters are in range.
    pub fn check_wf(&self) -> (b: bool)
        ensures
            b == self.wf(),
    {
        let lo: i64 = -FX_MAX;
        match *self {
            Force::Elastic(k, d0) => lo <= k && k <= FX_MAX && lo <= d0 && d0 <= FX_MAX,
            Force::Damping(c) => lo <= c && c <= FX_MAX,
            Force::Gravitational => true,
            Force::Sticky(d_well, d_max, f_sticky, f_repuls) => lo <= d_well && d_well <= FX_MAX
                && lo <= d_max && d_max <= FX_MAX && lo <= f_sticky && f_sticky <= FX_MAX && lo
                <= f_repuls && f_repuls <= FX_MAX,
        }
    }
}

impl ExternalForce {
    /// Tests at run time that all parameters are in range.
    pub fn check_wf(&self) -> (b: bool)
        ensures
            b == self.wf(),
    {
        let lo: i64 = -FX_MAX;
        match *self {
            ExternalForce::LinearDrag(c) => lo <= c && c <= FX_MAX,
            ExternalForce::Gravitational(g) => g.check_wf(),
        }
    }
}

impl ExternalConstraint {
    /// Tests at run time that the geometry is valid.
    pub fn check_wf(&self) -> (b: bool)
        ensures
            b == self.wf(),
    {
        match *self {
            ExternalConstraint::infinite_wall(w) => w.position.check_wf() && w.normal.check_wf()
                && match w.normal.dot(&w.normal) {
                Some(n2) => n2 >= 1,
                None => false,
            },
            ExternalConstraint::spherical_container(s) => s.center.check_wf() && 1 <= s.radius
                && s.radius <= FX_MAX,
        }
    }
}

/// One zero acceleration accumulator per particle.
pub open spec fn spec_zero_accels(n: nat) -> Seq<Vector3<units::Acceleration>> {
    Seq::new(n, |i: int| Vector3::spec_new(0, 0, 0))
}

/// The acceleration accumulators after one registered interaction has
/// added its contributions: each force is divided by the mass of the
/// particle it acts on and added into that particle's accumulator, the
/// first particle's before the second's.
pub open spec fn spec_apply_interaction(
    particles: Seq<Particle>,
    accs: Seq<Vector3<units::Acceleration>>,
    inter: Interaction,
) -> Result<Seq<Vector3<units::Acceleration>>, SimulationError> {
    match inter {
        Interaction::force_between_two_particles(ia, ib, f) => {
            let a = particles[ia as int];
            let b = particles[ib as int];
            match f.spec_acting_on_a(a, b) {
                Err(e) => Err(e),
                Ok(fa) => match fa.spec_cast_unit::<units::Acceleration>().spec_div_scalar(
                    a.mass,
                ) {
                    None => Err(SimulationError::NumericOverflow),
                    Some(ca) => match accs[ia as int].spec_plus(ca) {
                        None => Err(SimulationError::NumericOverflow),
                        Some(na) => {
                            let accs1 = accs.update(ia as int, na);
                            match fa.spec_negate().spec_cast_unit::<
                                units::Acceleration,
                            >().spec_div_scalar(b.mass) {
                                None => Err(SimulationError::NumericOverflow),
                                Some(cb) => match accs1[ib as int].spec_plus(cb) {
                                    None => Err(SimulationError::NumericOverflow),
                                    Some(nb) => Ok(accs1.update(ib as int, nb)),
                                },
                            }
                        },
                    },
                },
            }
        },
        Interaction::external_force(i, ef) => {
            let a = particles[i as int];
            match ef.spec_calculate_force(a) {
                Err(e) => Err(e),
                Ok(fv) => match fv.spec_cast_unit::<units::Acceleration>().spec_div_scalar(
                    a.mass,
                ) {
                    None => Err(SimulationError::NumericOverflow),
                    Some(c) => match accs[i as int].spec_plus(c) {
                        None => Err(SimulationError::NumericOverflow),
                        Some(n) => Ok(accs.update(i as int, n)),
                    },
                },
            }
        },
    }
}

/// The acceleration accumulators after the first `n` registered
/// interactions, in registration order.
pub open spec fn spec_accum(
    particles: Seq<Particle>,
    inters: Seq<Interaction>,
    n: int,
) -> Result<Seq<Vector3<units::Acceleration>>, SimulationError>
    decreases n,
{
    if n <= 0 {
        Ok(spec_zero_accels(particles.len()))
    } else {
        match spec_accum(particles, inters, n - 1) {
            Err(e) => Err(e),
            Ok(accs) => spec_apply_interaction(particles, accs, inters[n - 1]),
        }
    }
}

/// One particle moved by one time step: `dv = a * dt`,
/// `dp = v * dt + dv * dt / 2`, with the previous velocity `v` and the
/// accumulated acceleration `a`.
pub open spec fn spec_move_particle(p: Particle, acc: Vector3<units::Acceleration>, dt: i64) -> Result<
    Particle,
    SimulationError,
> {
    match acc.spec_cast_unit::<units::Velocity>().spec_scale(dt) {
        None => Err(SimulationError::NumericOverflow),
        Some(dv) => match p.velocity.spec_cast_unit::<units::Position>().spec_scale(dt) {
            None => Err(SimulationError::NumericOverflow),
            Some(t1) => match dv.spec_cast_unit::<units::Position>().spec_scale(dt) {
                None => Err(SimulationError::NumericOverflow),
                Some(t2) => match t1.spec_plus(t2.spec_halved()) {
                    None => Err(SimulationError::NumericOverflow),
                    Some(dr) => match p.position.spec_plus(dr) {
                        None => Err(SimulationError::NumericOverflow),
                        Some(np) => match p.velocity.spec_plus(dv.spec_cast_unit()) {
                            None => Err(SimulationError::NumericOverflow),
                            Some(nv) => Ok(Particle { position: np, velocity: nv, mass: p.mass }),
                        },
                    },
                },
            },
        },
    }
}

/// The first `n` particles moved by one time step, all from the state
/// before any particle moved.
pub open spec fn spec_move_all(
    particles: Seq<Particle>,
    accs: Seq<Vector3<units::Acceleration>>,
    dt: i64,
    n: int,
) -> Result<Seq<Particle>, SimulationError>
    decreases n,
{
    if n <= 0 {
        Ok(Seq::empty())
    } else {
        match spec_move_all(particles, accs, dt, n - 1) {
            Err(e) => Err(e),
            Ok(s) => match spec_move_particle(particles[n - 1], accs[n - 1], dt) {
                Err(e) => Err(e),
                Ok(p) => Ok(s.push(p)),
            },
        }
    }
}

/// One registered constraint applied to the already moved particles.
pub open spec fn spec_apply_constraint(particles: Seq<Particle>, c: Constraint) -> Result<
    Seq<Particle>,
    SimulationError,
> {
    match c {
        Constraint::external_constraint(i, ec) => match ec.spec_resolve(particles[i as int]) {
            Err(e) => Err(e),
            Ok(pv) => Ok(
                particles.update(
                    i as int,
                    Particle { position: pv.0, velocity: pv.1, mass: particles[i as int].mass },
                ),
            ),
        },
    }
}

/// The first `n` registered constraints applied in registration order.
pub open spec fn spec_constrain(
    particles: Seq<Particle>,
    cons: Seq<Constraint>,
    n: int,
) -> Result<Seq<Particle>, SimulationError>
    decreases n,
{
    if n <= 0 {
        Ok(particles)
    } else {
        match spec_constrain(particles, cons, n - 1) {
            Err(e) => Err(e),
            Ok(ps) => spec_apply_constraint(ps, cons[n - 1]),
        }
    }
}

/// One whole time step over the particle store: force accumulation,
/// kinematic update, then constraint resolution, each in registration
/// order.
pub open spec fn spec_step(
    particles: Seq<Particle>,
    inters: Seq<Interaction>,
    cons: Seq<Constraint>,
    dt: i64,
) -> Result<Seq<Particle>, SimulationError> {
    match spec_accum(particles, inters, inters.len() as int) {
        Err(e) => Err(e),
        Ok(accs) => match spec_move_all(particles, accs, dt, particles.len() as int) {
            Err(e) => Err(e),
            Ok(moved) => spec_constrain(moved, cons, cons.len() as int),
        },
    }
}

/// An accumulation that has failed stays failed, whatever follows.
proof fn lemma_accum_err_persists(
    particles: Seq<Particle>,
    inters: Seq<Interaction>,
    k: int,
    n: int,
)
    requires
        0 <= k <= n,
        spec_accum(particles, inters, k) is Err,
    ensures
        spec_accum(particles, inters, n) == spec_accum(particles, inters, k),
    decreases n - k,
{
    if n > k {
        lemma_accum_err_persists(particles, inters, k, n - 1);
    }
}

/// A kinematic update that has failed stays failed, whatever follows.
proof fn lemma_move_err_persists(
    particles: Seq<Particle>,
    accs: Seq<Vector3<units::Acceleration>>,
    dt: i64,
    k: int,
    n: int,
)
    requires
        0 <= k <= n,
        spec_move_all(particles, accs, dt, k) is Err,
    ensures
        spec_move_all(particles, accs, dt, n) == spec_move_all(particles, accs, dt, k),
    decreases n - k,
{
    if n > k {
        lemma_move_err_persists(particles, accs, dt, k, n - 1);
    }
}

/// A constraint pass that has failed stays failed, whatever follows.
proof fn lemma_constrain_err_persists(
    particles: Seq<Particle>,
    cons: Seq<Constraint>,
    k: int,
    n: int,
)
    requires
        0 <= k <= n,
        spec_constrain(particles, cons, k) is Err,
    ensures
        spec_constrain(particles, cons, n) == spec_constrain(particles, cons, k),
    decreases n - k,
{
    if n > k {
        lemma_constrain_err_persists(particles, cons, k, n - 1);
    }
}

/// Adds one interaction's contributions into the acceleration
/// accumulators; on failure the accumulators are untouched.
fn apply_interaction_exec(
    particles: &Vec<Particle>,
    accelerations: &mut Vec<Vector3<units::Acceleration>>,
    inter: Interaction,
) -> (r: Result<(), SimulationError>)
    requires
        forall|i: int| 0 <= i < particles@.len() ==> (#[trigger] particles@[i]).wf(),
        inter.wf(particles@.len()),
        old(accelerations)@.len() == particles@.len(),
        forall|i: int|
            0 <= i < old(accelerations)@.len() ==> (#[trigger] old(accelerations)@[i]).wf(),
    ensures
        final(accelerations)@.len() == old(accelerations)@.len(),
        forall|i: int|
            0 <= i < final(accelerations)@.len() ==> (#[trigger] final(accelerations)@[i]).wf(),
        ({
            let applied = spec_apply_interaction(particles@, old(accelerations)@, inter);
            match r {
                Ok(u) => applied == Ok::<Seq<Vector3<units::Acceleration>>, SimulationError>(
                    final(accelerations)@,
                ),
                Err(e) => applied == Err::<Seq<Vector3<units::Acceleration>>, SimulationError>(e)
                    && final(accelerations)@ == old(accelerations)@,
            }
        }),
{
    match inter {
        Interaction::force_between_two_particles(ia, ib, f) => {
            let a = particles[ia];
            let b = particles[ib];
            let fa = match f.acting_on_a(&a, &b) {
                Ok(v) => v,
                Err(e) => {
                    return Err(e);
                },
            };
            let ca = match fa.cast_unit::<units::Acceleration>().div_scalar(a.mass) {
                Some(v) => v,
                None => {
                    return Err(SimulationError::NumericOverflow);
                },
            };
            let na = match accelerations[ia].plus(&ca) {
                Some(v) => v,
                None => {
                    return Err(SimulationError::NumericOverflow);
                },
            };
            let fb = fa.negate();
            let cb = match fb.cast_unit::<units::Acceleration>().div_scalar(b.mass) {
                Some(v) => v,
                None => {
                    return Err(SimulationError::NumericOverflow);
                },
            };
            let base_b = if ib == ia {
                na
            } else {
                accelerations[ib]
            };
            let nb = match base_b.plus(&cb) {
                Some(v) => v,
                None => {
                    return Err(SimulationError::NumericOverflow);
                },
            };
            accelerations[ia] = na;
            accelerations[ib] = nb;
            proof {
                assert(final(accelerations)@ =~= old(accelerations)@.update(
                    ia as int,
                    na,
                ).update(ib as int, nb));
            }
            Ok(())
        },
        Interaction::external_force(idx, ef) => {
            let a = particles[idx];
            let fv = match ef.calculate_force(&a) {
                Ok(v) => v,
                Err(e) => {
                    return Err(e);
                },
            };
            let c = match fv.cast_unit::<units::Acceleration>().div_scalar(a.mass) {
                Some(v) => v,
                None => {
                    return Err(SimulationError::NumericOverflow);
                },
            };
            let nacc = match accelerations[idx].plus(&c) {
                Some(v) => v,
                None => {
                    return Err(SimulationError::NumericOverflow);
                },
            };
            accelerations[idx] = nacc;
            Ok(())
        },
    }
}

/// Evaluates every registered interaction, in registration order, into
/// one acceleration accumulator per particle.
fn compute_accelerations(particles: &Vec<Particle>, interactions: &Vec<Interaction>) -> (r: Result<
    Vec<Vector3<units::Acceleration>>,
    SimulationError,
>)
    requires
        forall|i: int| 0 <= i < particles@.len() ==> (#[trigger] particles@[i]).wf(),
        forall|i: int|
            0 <= i < interactions@.len() ==> (#[trigger] interactions@[i]).wf(particles@.len()),
    ensures
        ({
            let full = spec_accum(particles@, interactions@, interactions@.len() as int);
            match r {
                Ok(accs) => full == Ok::<Seq<Vector3<units::Acceleration>>, SimulationError>(accs@)
                    && accs@.len() == particles@.len() && (forall|i: int|
                    0 <= i < accs@.len() ==> (#[trigger] accs@[i]).wf()),
                Err(e) => full == Err::<Seq<Vector3<units::Acceleration>>, SimulationError>(e),
            }
        }),
{
    let n = particles.len();
    let mut accelerations: Vec<Vector3<units::Acceleration>> = Vec::new();
    let mut i: usize = 0;
    while i < n
        invariant
            i <= n,
            accelerations@.len() == i as int,
            forall|j: int|
                0 <= j < i as int ==> accelerations@[j] == Vector3::<units::Acceleration>::spec_new(
                    0,
                    0,
                    0,
                ),
        decreases n - i,
    {
        accelerations.push(Vector3::zero());
        i = i + 1;
    }
    proof {
        assert(accelerations@ =~= spec_zero_accels(particles@.len()));
    }
    let m = interactions.len();
    let mut k: usize = 0;
    while k < m
        invariant
            k <= m,
            m == interactions@.len(),
            n == particles@.len(),
            forall|j: int| 0 <= j < particles@.len() ==> (#[trigger] particles@[j]).wf(),
            forall|j: int|
                0 <= j < interactions@.len() ==> (#[trigger] interactions@[j]).wf(
                    particles@.len(),
                ),
            accelerations@.len() == n as int,
            forall|j: int|
                0 <= j < accelerations@.len() ==> (#[trigger] accelerations@[j]).wf(),
            spec_accum(particles@, interactions@, k as int) == Ok::<
                Seq<Vector3<units::Acceleration>>,
                SimulationError,
            >(accelerations@),
        decreases m - k,
    {
        let inter = interactions[k];
        match apply_interaction_exec(particles, &mut accelerations, inter) {
            Ok(u) => {
            },
            Err(e) => {
                proof {
                    lemma_accum_err_persists(
                        particles@,
                        interactions@,
                        k as int + 1,
                        m as int,
                    );
                }
                return Err(e);
            },
        }
        k = k + 1;
    }
    Ok(accelerations)
}

/// Moves one particle by one time step, from its state and accumulated
/// acceleration before any particle in this step was mutated.
fn move_particle_exec(p: &Particle, acc: &Vector3<units::Acceleration>, dt: i64) -> (r: Result<
    Particle,
    SimulationError,
>)
    requires
        p.wf(),
        acc.wf(),
        fits(dt as int),
    ensures
        r == spec_move_particle(*p, *acc, dt),
        r matches Ok(q) ==> q.wf(),
{
    let dv = match acc.cast_unit::<units::Velocity>().scale(dt) {
        Some(v) => v,
        None => {
            return Err(SimulationError::NumericOverflow);
        },
    };
    let t1 = match p.velocity.cast_unit::<units::Position>().scale(dt) {
        Some(v) => v,
        None => {
            return Err(SimulationError::NumericOverflow);
        },
    };
    let t2 = match dv.cast_unit::<units::Position>().scale(dt) {
        Some(v) => v,
        None => {
            return Err(SimulationError::NumericOverflow);
        },
    };
    let dr = match t1.plus(&t2.halved()) {
        Some(v) => v,
        None => {
            return Err(SimulationError::NumericOverflow);
        },
    };
    let np = match p.position.plus(&dr) {
        Some(v) => v,
        None => {
            return Err(SimulationError::NumericOverflow);
        },
    };
    let nv = match p.velocity.plus(&dv.cast_unit()) {
        Some(v) => v,
        None => {
            return Err(SimulationError::NumericOverflow);
        },
    };
    Ok(Particle { position: np, velocity: nv, mass: p.mass })
}

/// Moves every particle by one time step, each from the state before any
/// particle in this step was mutated.
fn move_particles(
    particles: &Vec<Particle>,
    accelerations: &Vec<Vector3<units::Acceleration>>,
    dt: i64,
) -> (r: Result<Vec<Particle>, SimulationError>)
    requires
        forall|i: int| 0 <= i < particles@.len() ==> (#[trigger] particles@[i]).wf(),
        accelerations@.len() == particles@.len(),
        forall|i: int|
            0 <= i < accelerations@.len() ==> (#[trigger] accelerations@[i]).wf(),
        fits(dt as int),
    ensures
        ({
            let full = spec_move_all(particles@, accelerations@, dt, particles@.len() as int);
            match r {
                Ok(moved) => full == Ok::<Seq<Particle>, SimulationError>(moved@) && moved@.len()
                    == particles@.len() && (forall|i: int|
                    0 <= i < moved@.len() ==> (#[trigger] moved@[i]).wf()),
                Err(e) => full == Err::<Seq<Particle>, SimulationError>(e),
            }
        }),
{
    let n = particles.len();
    let mut moved: Vec<Particle> = Vec::new();
    let mut i: usize = 0;
    while i < n
        invariant
            i <= n,
            n == particles@.len(),
            accelerations@.len() == n as int,
            forall|j: int| 0 <= j < particles@.len() ==> (#[trigger] particles@[j]).wf(),
            forall|j: int|
                0 <= j < accelerations@.len() ==> (#[trigger] accelerations@[j]).wf(),
            fits(dt as int),
            moved@.len() == i as int,
            forall|j: int| 0 <= j < moved@.len() ==> (#[trigger] moved@[j]).wf(),
            spec_move_all(particles@, accelerations@, dt, i as int) == Ok::<
                Seq<Particle>,
                SimulationError,
            >(moved@),
        decreases n - i,
    {
        let p = particles[i];
        let acc = accelerations[i];
        match move_particle_exec(&p, &acc, dt) {
            Ok(q) => {
                moved.push(q);
            },
            Err(e) => {
                proof {
                    lemma_move_err_persists(
                        particles@,
                        accelerations@,
                        dt,
                        i as int + 1,
                        n as int,
                    );
                }
                return Err(e);
            },
        }
        i = i + 1;
    }
    Ok(moved)
}

/// Applies every registered constraint, in registration order, to the
/// already kinematically updated particles.
fn apply_constraints(particles: &Vec<Particle>, constraints: &Vec<Constraint>) -> (r: Result<
    Vec<Particle>,
    SimulationError,
>)
    requires
        forall|i: int| 0 <= i < particles@.len() ==> (#[trigger] particles@[i]).wf(),
        forall|i: int|
            0 <= i < constraints@.len() ==> (#[trigger] constraints@[i]).wf(particles@.len()),
    ensures
        ({
            let full = spec_constrain(particles@, constraints@, constraints@.len() as int);
            match r {
                Ok(out) => full == Ok::<Seq<Particle>, SimulationError>(out@) && out@.len()
                    == particles@.len() && (forall|i: int|
                    0 <= i < out@.len() ==> (#[trigger] out@[i]).wf()),
                Err(e) => full == Err::<Seq<Particle>, SimulationError>(e),
            }
        }),
{
    let mut current: Vec<Particle> = particles.clone();
    proof {
        assert(current@ =~= particles@);
    }
    let c = constraints.len();
    let mut k: usize = 0;
    while k < c
        invariant
            k <= c,
            c == constraints@.len(),
            current@.len() == particles@.len(),
            forall|j: int| 0 <= j < current@.len() ==> (#[trigger] current@[j]).wf(),
            forall|j: int|
                0 <= j < constraints@.len() ==> (#[trigger] constraints@[j]).wf(particles@.len()),
            spec_constrain(particles@, constraints@, k as int) == Ok::<
                Seq<Particle>,
                SimulationError,
            >(current@),
        decreases c - k,
    {
        let cons = constraints[k];
        match cons {
            Constraint::external_constraint(idx, ec) => {
                let target = current[idx];
                match ec.compute_new_dynamical_variables(&target) {
                    Ok(pv) => {
                        current[idx] =
                        Particle { position: pv.0, velocity: pv.1, mass: target.mass };
                    },
                    Err(e) => {
                        proof {
                            assert(spec_apply_constraint(current@, constraints@[k as int])
                                == Err::<Seq<Particle>, SimulationError>(e));
                            assert(spec_constrain(particles@, constraints@, k as int + 1) == Err::<
                                Seq<Particle>,
                                SimulationError,
                            >(e));
                            lemma_constrain_err_persists(
                                particles@,
                                constraints@,
                                k as int + 1,
                                c as int,
                            );
                        }
                        return Err(e);
                    },
                }
            },
        }
        k = k + 1;
    }
    Ok(current)
}

/// The outcome of one `advance_time` call on a whole system: either the
/// particle store after the step, or the error that aborted it.
pub open spec fn spec_advance_outcome(sys: ParticlesSystem, dt: i64) -> Result<
    Seq<Particle>,
    SimulationError,
> {
    if !fits(sys.time + dt) {
        Err(SimulationError::NumericOverflow)
    } else {
        spec_step(sys.particles@, sys.interactions@, sys.constraints@, dt)
    }
}

/// A system of particles: the particle store, the registered
/// interactions and constraints, the simulation clock and the snapshot
/// counter.
#[derive(Debug)]
pub struct ParticlesSystem {
    pub particles: Vec<Particle>,
    pub interactions: Vec<Interaction>,
    pub constraints: Vec<Constraint>,
    pub time: i64,
    pub n_snapshots_saved: usize,
}

impl ParticlesSystem {
    /// The system invariant: every stored particle, interaction and
    /// constraint is valid, and the clock is a nonnegative scalar.
    pub open spec fn wf(&self) -> bool {
        &&& forall|i: int|
            0 <= i < self.particles@.len() ==> (#[trigger] self.particles@[i]).wf()
        &&& forall|i: int|
            0 <= i < self.interactions@.len() ==> (#[trigger] self.interactions@[i]).wf(
                self.particles@.len(),
            )
        &&& forall|i: int|
            0 <= i < self.constraints@.len() ==> (#[trigger] self.constraints@[i]).wf(
                self.particles@.len(),
            )
        &&& 0 <= self.time <= FX_MAX
    }

    /// Creates an empty particles system with the clock at zero.
    pub fn new() -> (s: ParticlesSystem)
        ensures
            s.wf(),
            s.particles@.len() == 0,
            s.interactions@.len() == 0,
            s.constraints@.len() == 0,
            s.time == 0,
            s.n_snapshots_saved == 0,
    {
        ParticlesSystem {
            particles: Vec::new(),
            interactions: Vec::new(),
            constraints: Vec::new(),
            time: 0,
            n_snapshots_saved: 0,
        }
    }

    /// Adds a particle to the store and returns its index, which stays
    /// stable for the particle's lifetime (there is no removal).  An
    /// invalid particle is rejected and nothing changes.
    pub fn add_particle(&mut self, particle: Particle) -> (r: Result<usize, SimulationError>)
        requires
            old(self).wf(),
        ensures
            final(self).wf(),
            particle.wf() ==> r == Ok::<usize, SimulationError>(
                old(self).particles@.len() as usize,
            ) && final(self).particles@ == old(self).particles@.push(particle),
            !particle.wf() ==> r == Err::<usize, SimulationError>(SimulationError::InvalidParameter)
                && final(self).particles@ == old(self).particles@,
            final(self).interactions@ == old(self).interactions@,
            final(self).constraints@ == old(self).constraints@,
            final(self).time == old(self).time,
            final(self).n_snapshots_saved == old(self).n_snapshots_saved,
    {
        if !particle.check_wf() {
            return Err(SimulationError::InvalidParameter);
        }
        let idx = self.particles.len();
        self.particles.push(particle);
        proof {
            let n0 = old(self).particles@.len();
            let n1 = self.particles@.len();
            assert forall|i: int| 0 <= i < self.interactions@.len() implies (
            #[trigger] self.interactions@[i]).wf(n1) by {
                assert(self.interactions@[i].wf(n0));
            }
            assert forall|i: int| 0 <= i < self.constraints@.len() implies (
            #[trigger] self.constraints@[i]).wf(n1) by {
                assert(self.constraints@[i].wf(n0));
            }
        }
        Ok(idx)
    }

    /// Registers an interaction.  An index that does not reference a
    /// stored particle is rejected at once (never discovered mid-step),
    /// as is an out-of-range parameter; then nothing changes.
    pub fn add_interaction(&mut self, interaction: Interaction) -> (r: Result<
        (),
        SimulationError,
    >)
        requires
            old(self).wf(),
        ensures
            final(self).wf(),
            interaction.wf(old(self).particles@.len()) ==> r == Ok::<(), SimulationError>(())
                && final(self).interactions@ == old(self).interactions@.push(interaction),
            !interaction.indices_ok(old(self).particles@.len()) ==> r == Err::<
                (),
                SimulationError,
            >(SimulationError::IndexOutOfRange) && final(self).interactions@ == old(self).interactions@,
            interaction.indices_ok(old(self).particles@.len()) && !interaction.params_ok() ==> r
                == Err::<(), SimulationError>(SimulationError::InvalidParameter) && final(self).interactions@ == old(self).interactions@,
            final(self).particles@ == old(self).particles@,
            final(self).constraints@ == old(self).constraints@,
            final(self).time == old(self).time,
            final(self).n_snapshots_saved == old(self).n_snapshots_saved,
    {
        let n = self.particles.len();
        let indices_ok: bool = match interaction {
            Interaction::force_between_two_particles(ia, ib, _) => ia < n && ib < n,
            Interaction::external_force(i, _) => i < n,
        };
        if !indices_ok {
            return Err(SimulationError::IndexOutOfRange);
        }
        let params_ok: bool = match &interaction {
            Interaction::force_between_two_particles(_, _, f) => f.check_wf(),
            Interaction::external_force(_, ef) => ef.check_wf(),
        };
        if !params_ok {
            return Err(SimulationError::InvalidParameter);
        }
        self.interactions.push(interaction);
        Ok(())
    }

    /// Registers a constraint.  An index that does not reference a stored
    /// particle is rejected at once, as is invalid geometry (a
    /// non-positive sphere radius or a zero-length plane normal); then
    /// nothing changes.
    pub fn add_constraint(&mut self, constraint: Constraint) -> (r: Result<(), SimulationError>)
        requires
            old(self).wf(),
        ensures
            final(self).wf(),
            constraint.wf(old(self).particles@.len()) ==> r == Ok::<(), SimulationError>(())
                && final(self).constraints@ == old(self).constraints@.push(constraint),
            !constraint.indices_ok(old(self).particles@.len()) ==> r == Err::<
                (),
                SimulationError,
            >(SimulationError::IndexOutOfRange) && final(self).constraints@ == old(self).constraints@,
            constraint.indices_ok(old(self).particles@.len()) && !constraint.params_ok() ==> r
                == Err::<(), SimulationError>(SimulationError::InvalidParameter) && final(self).constraints@ == old(self).constraints@,
            final(self).particles@ == old(self).particles@,
            final(self).interactions@ == old(self).interactions@,
            final(self).time == old(self).time,
            final(self).n_snapshots_saved == old(self).n_snapshots_saved,
    {
        let n = self.particles.len();
        let indices_ok: bool = match constraint {
            Constraint::external_constraint(i, _) => i < n,
        };
        if !indices_ok {
            return Err(SimulationError::IndexOutOfRange);
        }
        let params_ok: bool = match &constraint {
            Constraint::external_constraint(_, ec) => ec.check_wf(),
        };
        if !params_ok {
            return Err(SimulationError::InvalidParameter);
        }
        self.constraints.push(constraint);
        Ok(())
    }

    /// Bounds-checked read of one stored particle.
    pub fn get(&self, index: usize) -> (r: Result<Particle, SimulationError>)
        ensures
            index < self.particles@.len() ==> r == Ok::<Particle, SimulationError>(
                self.particles@[index as int],
            ),
            index >= self.particles@.len() ==> r == Err::<Particle, SimulationError>(
                SimulationError::IndexOutOfRange,
            ),
    {
        if index < self.particles.len() {
            Ok(self.particles[index])
        } else {
            Err(SimulationError::IndexOutOfRange)
        }
    }

    /// Bounds-checked overwrite of one stored particle.  An out-of-range
    /// index or an invalid particle is rejected and nothing changes.
    pub fn set(&mut self, index: usize, particle: Particle) -> (r: Result<(), SimulationError>)
        requires
            old(self).wf(),
        ensures
            final(self).wf(),
            index >= old(self).particles@.len() ==> r == Err::<(), SimulationError>(
                SimulationError::IndexOutOfRange,
            ) && final(self).particles@ == old(self).particles@,
            index < old(self).particles@.len() && !particle.wf() ==> r == Err::<
                (),
                SimulationError,
            >(SimulationError::InvalidParameter) && final(self).particles@ == old(
                self,
            ).particles@,
            index < old(self).particles@.len() && particle.wf() ==> r == Ok::<
                (),
                SimulationError,
            >(()) && final(self).particles@ == old(self).particles@.update(
                index as int,
                particle,
            ),
            final(self).interactions@ == old(self).interactions@,
            final(self).constraints@ == old(self).constraints@,
            final(self).time == old(self).time,
            final(self).n_snapshots_saved == old(self).n_snapshots_saved,
    {
        if index >= self.particles.len() {
            return Err(SimulationError::IndexOutOfRange);
        }
        if !particle.check_wf() {
            return Err(SimulationError::InvalidParameter);
        }
        self.particles[index] = particle;
        Ok(())
    }

    /// Advances the simulation by one time step, atomically: forces are
    /// accumulated per particle in registration order, the kinematics are
    /// updated from the state before the step, the constraints are
    /// resolved in registration order, and the clock moves forward.  On
    /// any failure the step has no effect at all: no torn state.
    pub fn advance_time(&mut self, time_step: i64) -> (r: Result<(), SimulationError>)
        requires
            old(self).wf(),
            0 <= time_step,
            fits(time_step as int),
        ensures
            final(self).wf(),
            final(self).interactions@ == old(self).interactions@,
            final(self).constraints@ == old(self).constraints@,
            final(self).n_snapshots_saved == old(self).n_snapshots_saved,
            ({
                match spec_advance_outcome(*old(self), time_step) {
                    Ok(ps) => r is Ok && final(self).particles@ == ps && final(self).time == old(
                        self,
                    ).time + time_step,
                    Err(e) => r == Err::<(), SimulationError>(e) && final(self).particles@ == old(
                        self,
                    ).particles@ && final(self).time == old(self).time,
                }
            }),
    {
        let new_time = match fx::fx_add(self.time, time_step) {
            Some(t) => t,
            None => {
                return Err(SimulationError::NumericOverflow);
            },
        };
        let accelerations = match compute_accelerations(&self.particles, &self.interactions) {
            Ok(v) => v,
            Err(e) => {
                return Err(e);
            },
        };
        let moved = match move_particles(&self.particles, &accelerations, time_step) {
            Ok(v) => v,
            Err(e) => {
                return Err(e);
            },
        };
        let corrected = match apply_constraints(&moved, &self.constraints) {
            Ok(v) => v,
            Err(e) => {
                return Err(e);
            },
        };
        self.particles = corrected;
        self.time = new_time;
        Ok(())
    }

    /// Takes a read-only, sequence-numbered snapshot of the particle
    /// state and the clock.  The state is untouched; only the sequence
    /// counter moves, so that the next snapshot carries the next number.
    /// Two snapshots without an intervening step differ in nothing but
    /// their sequence numbers.
    pub fn snapshot(&mut self) -> (r: Snapshot)
        requires
            old(self).n_snapshots_saved < usize::MAX,
        ensures
            r.sequence_index == old(self).n_snapshots_saved,
            r.time == old(self).time,
            r.particles@ == spec_snapshot_rows(old(self).particles@),
            final(self).particles@ == old(self).particles@,
            final(self).interactions@ == old(self).interactions@,
            final(self).constraints@ == old(self).constraints@,
            final(self).time == old(self).time,
            final(self).n_snapshots_saved == old(self).n_snapshots_saved + 1,
            old(self).wf() ==> final(self).wf(),
    {
        let ghost ps0 = self.particles@;
        let n = self.particles.len();
        let mut rows: Vec<SnapshotRow> = Vec::new();
        let mut i: usize = 0;
        while i < n
            invariant
                i <= n,
                n == self.particles@.len(),
                self.particles@ == ps0,
                rows@.len() == i as int,
                forall|j: int| 0 <= j < i as int ==> rows@[j] == spec_snapshot_rows(ps0)[j],
            decreases n - i,
        {
            let p = self.particles[i];
            rows.push(
                SnapshotRow {
                    n_particle: i,
                    position: p.position,
                    velocity: p.velocity,
                    mass: p.mass,
                },
            );
            i = i + 1;
        }
        proof {
            assert(rows@ =~= spec_snapshot_rows(ps0));
        }
        let sequence_index = self.n_snapshots_saved;
        self.n_snapshots_saved = self.n_snapshots_saved + 1;
        Snapshot { sequence_index, time: self.time, particles: rows }
    }

    /// Exports the full system representation: all particles,
    /// interactions and constraints, the clock and the sequence counter.
    /// Read-only; together with [`ParticlesSystem::restore`] it makes a
    /// simulation resumable.
    pub fn export(&self) -> (r: SystemState)
        ensures
            r.particles@ == self.particles@,
            r.interactions@ == self.interactions@,
            r.constraints@ == self.constraints@,
            r.time == self.time,
            r.n_snapshots_saved == self.n_snapshots_saved,
    {
        let particles = self.particles.clone();
        let interactions = self.interactions.clone();
        let constraints = self.constraints.clone();
        proof {
            assert(particles@ =~= self.particles@);
            assert(interactions@ =~= self.interactions@);
            assert(constraints@ =~= self.constraints@);
        }
        SystemState {
            particles,
            interactions,
            constraints,
            time: self.time,
            n_snapshots_saved: self.n_snapshots_saved,
        }
    }

    /// Reconstructs a system from a previously exported representation,
    /// after validating it as construction would: particles first, then
    /// interaction indices, interaction parameters, constraint indices,
    /// constraint geometry, and the clock.  A valid representation
    /// reproduces the exported system exactly, so a resumed simulation
    /// continues identically.
    pub fn restore(state: SystemState) -> (r: Result<ParticlesSystem, SimulationError>)
        ensures
            ({
                match spec_restore_error(state) {
                    None => r matches Ok(sys) && sys.particles@ == state.particles@
                        && sys.interactions@ == state.interactions@ && sys.constraints@
                        == state.constraints@ && sys.time == state.time && sys.n_snapshots_saved
                        == state.n_snapshots_saved && sys.wf(),
                    Some(e) => r == Err::<ParticlesSystem, SimulationError>(e),
                }
            }),
    {
        let n = state.particles.len();
        let mut i: usize = 0;
        while i < n
            invariant
                i <= n,
                n == state.particles@.len(),
                forall|j: int| 0 <= j < i as int ==> (#[trigger] state.particles@[j]).wf(),
            decreases n - i,
        {
            if !state.particles[i].check_wf() {
                return Err(SimulationError::InvalidParameter);
            }
            i = i + 1;
        }
        let m = state.interactions.len();
        let mut k: usize = 0;
        while k < m
            invariant
                k <= m,
                m == state.interactions@.len(),
                n == state.particles@.len(),
                forall|j: int| 0 <= j < n as int ==> (#[trigger] state.particles@[j]).wf(),
                forall|j: int|
                    0 <= j < k as int ==> (#[trigger] state.interactions@[j]).indices_ok(
                        state.particles@.len(),
                    ),
            decreases m - k,
        {
            let ok: bool = match state.interactions[k] {
                Interaction::force_between_two_particles(ia, ib, _) => ia < n && ib < n,
                Interaction::external_force(idx, _) => idx < n,
            };
            if !ok {
                proof {
                    assert(!state.interactions@[k as int].indices_ok(state.particles@.len()));
                }
                return Err(SimulationError::IndexOutOfRange);
            }
            k = k + 1;
        }
        let mut k2: usize = 0;
        while k2 < m
            invariant
                k2 <= m,
                m == state.interactions@.len(),
                n == state.particles@.len(),
                forall|j: int| 0 <= j < n as int ==> (#[trigger] state.particles@[j]).wf(),
                forall|j: int|
                    0 <= j < m as int ==> (#[trigger] state.interactions@[j]).indices_ok(
                        state.particles@.len(),
                    ),
                forall|j: int|
                    0 <= j < k2 as int ==> (#[trigger] state.interactions@[j]).params_ok(),
            decreases m - k2,
        {
            let ok: bool = match &state.interactions[k2] {
                Interaction::force_between_two_particles(_, _, f) => f.check_wf(),
                Interaction::external_force(_, ef) => ef.check_wf(),
            };
            if !ok {
                proof {
                    assert(!state.interactions@[k2 as int].params_ok());
                }
                return Err(SimulationError::InvalidParameter);
            }
            k2 = k2 + 1;
        }
        let c = state.constraints.len();
        let mut k3: usize = 0;
        while k3 < c
            invariant
                k3 <= c,
                c == state.constraints@.len(),
                n == state.particles@.len(),
                m == state.interactions@.len(),
                forall|j: int| 0 <= j < n as int ==> (#[trigger] state.particles@[j]).wf(),
                forall|j: int|
                    0 <= j < m as int ==> (#[trigger] state.interactions@[j]).indices_ok(
                        state.particles@.len(),
                    ),
                forall|j: int|
                    0 <= j < m as int ==> (#[trigger] state.interactions@[j]).params_ok(),
                forall|j: int|
                    0 <= j < k3 as int ==> (#[trigger] state.constraints@[j]).indices_ok(
                        state.particles@.len(),
                    ),
            decreases c - k3,
        {
            let ok: bool = match state.constraints[k3] {
                Constraint::external_constraint(idx, _) => idx < n,
            };
            if !ok {
                proof {
                    assert(!state.constraints@[k3 as int].indices_ok(state.particles@.len()));
                }
                return Err(SimulationError::IndexOutOfRange);
            }
            k3 = k3 + 1;
        }
        let mut k4: usize = 0;
        while k4 < c
            invariant
                k4 <= c,
                c == state.constraints@.len(),
                n == state.particles@.len(),
                m == state.interactions@.len(),
                forall|j: int| 0 <= j < n as int ==> (#[trigger] state.particles@[j]).wf(),
                forall|j: int|
                    0 <= j < m as int ==> (#[trigger] state.interactions@[j]).indices_ok(
                        state.particles@.len(),
                    ),
                forall|j: int|
                    0 <= j < m as int ==> (#[trigger] state.interactions@[j]).params_ok(),
                forall|j: int|
                    0 <= j < c as int ==> (#[trigger] state.constraints@[j]).indices_ok(
                        state.particles@.len(),
                    ),
                forall|j: int|
                    0 <= j < k4 as int ==> (#[trigger] state.constraints@[j]).params_ok(),
            decreases c - k4,
        {
            let ok: bool = match &state.constraints[k4] {
                Constraint::external_constraint(_, ec) => ec.check_wf(),
            };
            if !ok {
                proof {
                    assert(!state.constraints@[k4 as int].params_ok());
                }
                return Err(SimulationError::InvalidParameter);
            }
            k4 = k4 + 1;
        }
        if !(0 <= state.time && state.time <= FX_MAX) {
            return Err(SimulationError::InvalidParameter);
        }
        Ok(
            ParticlesSystem {
                particles: state.particles,
                interactions: state.interactions,
                constraints: state.constraints,
                time: state.time,
                n_snapshots_saved: state.n_snapshots_saved,
            },
        )
    }
}

/// One row of a snapshot: a particle's index and kinematic state.
#[derive(Clone, Copy, Debug, PartialEq, Eq)]
pub struct SnapshotRow {
    pub n_particle: usize,
    pub position: Vector3<units::Position>,
    pub velocity: Vector3<units::Velocity>,
    pub mass: units::Mass,
}

/// An immutable, sequence-numbered export of the particle state at a
/// point in simulated time.
#[derive(Debug)]
pub struct Snapshot {
    pub sequence_index: usize,
    pub time: i64,
    pub particles: Vec<SnapshotRow>,
}

/// The rows of a snapshot of the given particle store, in index order.
pub open spec fn spec_snapshot_rows(particles: Seq<Particle>) -> Seq<SnapshotRow> {
    Seq::new(
        particles.len(),
        |i: int|
            SnapshotRow {
                n_particle: i as usize,
                position: particles[i].position,
                velocity: particles[i].velocity,
                mass: particles[i].mass,
            },
    )
}

/// A full-system representation, as exported for persistence and
/// accepted back by [`ParticlesSystem::restore`].
#[derive(Debug)]
pub struct SystemState {
    pub particles: Vec<Particle>,
    pub interactions: Vec<Interaction>,
    pub constraints: Vec<Constraint>,
    pub time: i64,
    pub n_snapshots_saved: usize,
}

/// A representation is valid when every stored item would pass
/// construction-time validation and the clock is a nonnegative scalar.
pub open spec fn spec_state_valid(s: SystemState) -> bool {
    &&& forall|i: int| 0 <= i < s.particles@.len() ==> (#[trigger] s.particles@[i]).wf()
    &&& forall|i: int|
        0 <= i < s.interactions@.len() ==> (#[trigger] s.interactions@[i]).wf(s.particles@.len())
    &&& forall|i: int|
        0 <= i < s.constraints@.len() ==> (#[trigger] s.constraints@[i]).wf(s.particles@.len())
    &&& 0 <= s.time <= FX_MAX
}

/// The error a restore reports, scanning as restore does: particles,
/// then interaction indices, interaction parameters, constraint indices,
/// constraint geometry, and last the clock.  `None` means the
/// representation is valid.
pub open spec fn spec_restore_error(s: SystemState) -> Option<SimulationError> {
    if !(forall|i: int| 0 <= i < s.particles@.len() ==> (#[trigger] s.particles@[i]).wf()) {
        Some(SimulationError::InvalidParameter)
    } else if !(forall|i: int|
        0 <= i < s.interactions@.len() ==> (#[trigger] s.interactions@[i]).indices_ok(
            s.particles@.len(),
        )) {
        Some(SimulationError::IndexOutOfRange)
    } else if !(forall|i: int|
        0 <= i < s.interactions@.len() ==> (#[trigger] s.interactions@[i]).params_ok()) {
        Some(SimulationError::InvalidParameter)
    } else if !(forall|i: int|
        0 <= i < s.constraints@.len() ==> (#[trigger] s.constraints@[i]).indices_ok(
            s.particles@.len(),
        )) {
        Some(SimulationError::IndexOutOfRange)
    } else if !(forall|i: int|
        0 <= i < s.constraints@.len() ==> (#[trigger] s.constraints@[i]).params_ok()) {
        Some(SimulationError::InvalidParameter)
    } else if !(0 <= s.time <= FX_MAX) {
        Some(SimulationError::InvalidParameter)
    } else {
        None
    }
}

} // verus!
