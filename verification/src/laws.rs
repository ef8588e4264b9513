//! System-wide laws of the engine, stated and proved against the same
//! spec functions the executable contracts use.

use vstd::prelude::*;
use crate::fx;
use crate::fx::fits;
use crate::fx::FX_MAX;
use crate::fx::SCALE;
use crate::geometric_objects::Sphere;
use crate::particles_system::spec_accum;
use crate::particles_system::spec_apply_interaction;
use crate::particles_system::spec_constrain;
use crate::particles_system::spec_move_all;
use crate::particles_system::spec_move_particle;
use crate::particles_system::spec_restore_error;
use crate::particles_system::spec_snapshot_rows;
use crate::particles_system::spec_state_valid;
use crate::particles_system::spec_step;
use crate::particles_system::spec_zero_accels;
use crate::particles_system::Constraint;
use crate::particles_system::ExternalConstraint;
use crate::particles_system::Force;
use crate::particles_system::Interaction;
use crate::particles_system::Particle;
use crate::particles_system::ParticlesSystem;
use crate::particles_system::SimulationError;
use crate::particles_system::SystemState;
use crate::units;
use crate::vector::Vector3;

verus! {

/// Equilibrium: when two particles sit at separation exactly `d0`, the
/// elastic force `Elastic(k, d0)` on either of them is exactly zero.
/// The separation hypothesis says that the fixed-point length of the
/// separation vector equals `d0` on the nose.
pub proof fn lemma_elastic_equilibrium(
    k: i64,
    d0: i64,
    a: Particle,
    b: Particle,
    rv: Vector3<units::Position>,
    d2: i64,
)
    requires
        a.wf(),
        b.wf(),
        fits(k as int),
        fits(d0 as int),
        b.position.spec_minus(a.position) == Some(rv),
        rv.spec_dot(rv) == Some(d2),
        d2 != 0,
        fx::fx_sqrt_v(d2) == d0,
    ensures
        Force::Elastic(k, d0).spec_acting_on_a(a, b) == Ok::<
            Vector3<units::Force>,
            SimulationError,
        >(Vector3::spec_new(0, 0, 0)),
        Force::Elastic(k, d0).spec_acting_on_b(a, b) == Ok::<
            Vector3<units::Force>,
            SimulationError,
        >(Vector3::spec_new(0, 0, 0)),
{
    rv.lemma_self_dot_nonneg();
    fx::lemma_fx_sqrt_v_bounds(d2);
    let d = fx::fx_sqrt_v(d2);
    assert(1 <= d);
    assert(fx::fx_sub_c(d, d0) == Some(0i64));
    fx::lemma_tdiv_shrinks(k as int * 0, SCALE as int);
    assert(fx::fx_mul_c(k, 0i64) == Some(0i64));
    fx::lemma_tdiv_shrinks(0 * SCALE as int, d as int);
    assert(fx::fx_div_c(0i64, d) == Some(0i64));
    fx::lemma_tdiv_shrinks(rv.x as int * 0, SCALE as int);
    fx::lemma_tdiv_shrinks(rv.y as int * 0, SCALE as int);
    fx::lemma_tdiv_shrinks(rv.z as int * 0, SCALE as int);
    assert(rv.spec_scale(0i64) == Some(Vector3::<units::Position>::spec_new(0, 0, 0)));
}

/// Equilibrium at the level of the integrator: a two-particle system
/// whose only interaction is the elastic bond at exact separation `d0`
/// accumulates exactly zero acceleration on both particles.
pub proof fn lemma_elastic_equilibrium_accelerations(
    k: i64,
    d0: i64,
    a: Particle,
    b: Particle,
    rv: Vector3<units::Position>,
    d2: i64,
)
    requires
        a.wf(),
        b.wf(),
        fits(k as int),
        fits(d0 as int),
        b.position.spec_minus(a.position) == Some(rv),
        rv.spec_dot(rv) == Some(d2),
        d2 != 0,
        fx::fx_sqrt_v(d2) == d0,
    ensures
        spec_accum(
            seq![a, b],
            seq![Interaction::force_between_two_particles(0, 1, Force::Elastic(k, d0))],
            1,
        ) == Ok::<Seq<Vector3<units::Acceleration>>, SimulationError>(spec_zero_accels(2)),
{
    lemma_elastic_equilibrium(k, d0, a, b, rv, d2);
    let particles = seq![a, b];
    let inter = Interaction::force_between_two_particles(0, 1, Force::Elastic(k, d0));
    let zero = Vector3::<units::Acceleration>::spec_new(0, 0, 0);
    let accs = spec_zero_accels(2);
    assert(spec_accum(particles, seq![inter], 0) == Ok::<
        Seq<Vector3<units::Acceleration>>,
        SimulationError,
    >(accs));
    assert(particles[0] == a && particles[1] == b);
    fx::lemma_tdiv_shrinks(0 * SCALE as int, a.mass as int);
    fx::lemma_tdiv_shrinks(0 * SCALE as int, b.mass as int);
    assert(accs[0] == zero && accs[1] == zero);
    assert(zero.spec_div_scalar(a.mass) == Some(zero));
    assert(zero.spec_plus(zero) == Some(zero));
    assert(accs.update(0, zero) =~= accs);
    assert(accs.update(1, zero) =~= accs);
    assert(spec_apply_interaction(particles, accs, inter) == Ok::<
        Seq<Vector3<units::Acceleration>>,
        SimulationError,
    >(accs));
}

/// Newton's third law, exact in fixed point: whenever the force on the
/// first particle of a pair evaluates, the force on the second is its
/// exact negation, and the two evaluations fail alike.
pub proof fn lemma_newton_third_law(f: Force, a: Particle, b: Particle)
    ensures
        f.spec_acting_on_a(a, b) matches Ok(fa) ==> f.spec_acting_on_b(a, b) == Ok::<
            Vector3<units::Force>,
            SimulationError,
        >(fa.spec_negate()),
        f.spec_acting_on_a(a, b) matches Err(e) ==> f.spec_acting_on_b(a, b) == Err::<
            Vector3<units::Force>,
            SimulationError,
        >(e),
{
}

/// An interaction between the two particles of a pair, in either
/// orientation.
pub open spec fn pairwise_between_first_two(inter: Interaction) -> bool {
    match inter {
        Interaction::force_between_two_particles(ia, ib, _) => (ia == 0 && ib == 1) || (ia == 1
            && ib == 0),
        Interaction::external_force(_, _) => false,
    }
}

/// Opposite accumulators stay opposite under one pairwise interaction
/// of a two-particle system with equal masses.
#[verifier::rlimit(100)]
proof fn lemma_apply_interaction_antisymmetric(
    a: Particle,
    b: Particle,
    accs: Seq<Vector3<units::Acceleration>>,
    inter: Interaction,
)
    requires
        a.wf(),
        b.wf(),
        a.mass == b.mass,
        accs.len() == 2,
        accs[0].wf(),
        accs[1].wf(),
        accs[1] == accs[0].spec_negate(),
        pairwise_between_first_two(inter),
    ensures
        spec_apply_interaction(seq![a, b], accs, inter) matches Ok(accs2) ==> accs2.len() == 2
            && accs2[0].wf() && accs2[1].wf() && accs2[1] == accs2[0].spec_negate(),
{
    let particles = seq![a, b];
    if spec_apply_interaction(particles, accs, inter) is Ok {
        match inter {
            Interaction::force_between_two_particles(ia, ib, f) => {
                let pa = particles[ia as int];
                let pb = particles[ib as int];
                let fa = f.spec_acting_on_a(pa, pb)->Ok_0;
                let faa = fa.spec_cast_unit::<units::Acceleration>();
                assert(pa.mass == a.mass && pb.mass == a.mass);
                assert(fa.spec_negate().spec_cast_unit::<units::Acceleration>()
                    == faa.spec_negate());
                let ca_opt = faa.spec_div_scalar(a.mass);
                assert(ca_opt is Some);
                let ca = ca_opt->Some_0;
                assert(faa.wf()) by {
                    assert(fits(fx::fx_div_v(faa.x as int, a.mass as int)));
                }
                faa.lemma_div_scalar_odd(a.mass);
                assert(ca.wf()) by {
                    fx::lemma_tdiv_shrinks(faa.x * SCALE, a.mass as int);
                }
                accs[ia as int].lemma_plus_odd(ca);
                let na = accs[ia as int].spec_plus(ca)->Some_0;
                assert(na.wf());
                assert(accs[ib as int] == accs[ia as int].spec_negate());
                assert(accs.update(ia as int, na)[ib as int] == accs[ib as int]);
                let accs2 = spec_apply_interaction(particles, accs, inter)->Ok_0;
                assert(accs2 == accs.update(ia as int, na).update(
                    ib as int,
                    na.spec_negate(),
                ));
                assert(accs2[ia as int] == na && accs2[ib as int] == na.spec_negate());
            },
            Interaction::external_force(_, _) => {
            },
        }
    }
}

/// In a two-particle system of equal masses whose interactions are all
/// pairwise, the accumulated accelerations are exact negations of one
/// another.
proof fn lemma_accum_antisymmetric(a: Particle, b: Particle, inters: Seq<Interaction>, n: int)
    requires
        a.wf(),
        b.wf(),
        a.mass == b.mass,
        0 <= n <= inters.len(),
        forall|i: int| 0 <= i < inters.len() ==> pairwise_between_first_two(#[trigger] inters[i]),
    ensures
        spec_accum(seq![a, b], inters, n) matches Ok(accs) ==> accs.len() == 2 && accs[0].wf()
            && accs[1].wf() && accs[1] == accs[0].spec_negate(),
    decreases n,
{
    let particles = seq![a, b];
    if n <= 0 {
        let accs = spec_zero_accels(2);
        assert(accs[1] == accs[0].spec_negate());
        assert(accs[0].wf());
    } else {
        lemma_accum_antisymmetric(a, b, inters, n - 1);
        if spec_accum(particles, inters, n) is Ok {
            let accs = spec_accum(particles, inters, n - 1)->Ok_0;
            lemma_apply_interaction_antisymmetric(a, b, accs, inters[n - 1]);
        }
    }
}

/// Momentum conservation, exact: a closed two-particle system of equal
/// masses, with only pairwise interactions between the two and no
/// constraints, preserves the total momentum `mass * velocity`
/// componentwise through a whole step, to the last unit.
///
/// With unequal masses the division of the shared force by each mass
/// rounds separately, so only a tolerance-level statement holds there.
#[verifier::rlimit(100)]
pub proof fn lemma_momentum_conserved_pair(
    a: Particle,
    b: Particle,
    inters: Seq<Interaction>,
    dt: i64,
    result: Seq<Particle>,
)
    requires
        a.wf(),
        b.wf(),
        a.mass == b.mass,
        forall|i: int| 0 <= i < inters.len() ==> pairwise_between_first_two(#[trigger] inters[i]),
        spec_step(seq![a, b], inters, Seq::<Constraint>::empty(), dt) == Ok::<
            Seq<Particle>,
            SimulationError,
        >(result),
    ensures
        result.len() == 2,
        result[0].mass == a.mass && result[1].mass == b.mass,
        result[0].mass * result[0].velocity.x + result[1].mass * result[1].velocity.x == a.mass
            * a.velocity.x + b.mass * b.velocity.x,
        result[0].mass * result[0].velocity.y + result[1].mass * result[1].velocity.y == a.mass
            * a.velocity.y + b.mass * b.velocity.y,
        result[0].mass * result[0].velocity.z + result[1].mass * result[1].velocity.z == a.mass
            * a.velocity.z + b.mass * b.velocity.z,
{
    let particles = seq![a, b];
    lemma_accum_antisymmetric(a, b, inters, inters.len() as int);
    assert(spec_accum(particles, inters, inters.len() as int) is Ok);
    let accs = spec_accum(particles, inters, inters.len() as int)->Ok_0;
    assert(particles.len() == 2);
    let full_move = spec_move_all(particles, accs, dt, 2);
    assert(full_move is Ok);
    let moved = full_move->Ok_0;
    assert(spec_constrain(moved, Seq::<Constraint>::empty(), 0) == Ok::<
        Seq<Particle>,
        SimulationError,
    >(moved));
    assert(result == moved);
    let part_move = spec_move_all(particles, accs, dt, 1);
    assert(part_move is Ok);
    assert(spec_move_all(particles, accs, dt, 0) == Ok::<Seq<Particle>, SimulationError>(
        Seq::<Particle>::empty(),
    ));
    assert(spec_move_particle(particles[0], accs[0], dt) is Ok);
    assert(spec_move_particle(particles[1], accs[1], dt) is Ok);
    let m0 = spec_move_particle(particles[0], accs[0], dt)->Ok_0;
    let m1 = spec_move_particle(particles[1], accs[1], dt)->Ok_0;
    assert(part_move->Ok_0 == Seq::<Particle>::empty().push(m0));
    assert(moved == Seq::<Particle>::empty().push(m0).push(m1));
    assert(moved[0] == m0 && moved[1] == m1);
    let acc0v = accs[0].spec_cast_unit::<units::Velocity>();
    assert(accs[1].spec_cast_unit::<units::Velocity>() == acc0v.spec_negate());
    assert(acc0v.wf());
    acc0v.lemma_scale_odd(dt);
    assert(acc0v.spec_scale(dt) is Some);
    let dv0 = acc0v.spec_scale(dt)->Some_0;
    assert(accs[1].spec_cast_unit::<units::Velocity>().spec_scale(dt) == Some(
        dv0.spec_negate(),
    ));
    assert(m0.velocity.x == a.velocity.x + dv0.x);
    assert(m0.velocity.y == a.velocity.y + dv0.y);
    assert(m0.velocity.z == a.velocity.z + dv0.z);
    assert(m1.velocity.x == b.velocity.x - dv0.x);
    assert(m1.velocity.y == b.velocity.y - dv0.y);
    assert(m1.velocity.z == b.velocity.z - dv0.z);
    assert(m0.mass == a.mass && m1.mass == b.mass);
    assert(a.mass * (a.velocity.x + dv0.x) + a.mass * (b.velocity.x - dv0.x) == a.mass
        * a.velocity.x + a.mass * b.velocity.x) by (nonlinear_arith);
    assert(a.mass * (a.velocity.y + dv0.y) + a.mass * (b.velocity.y - dv0.y) == a.mass
        * a.velocity.y + a.mass * b.velocity.y) by (nonlinear_arith);
    assert(a.mass * (a.velocity.z + dv0.z) + a.mass * (b.velocity.z - dv0.z) == a.mass
        * a.velocity.z + a.mass * b.velocity.z) by (nonlinear_arith);
}

/// The fixed-point scalar a damping force scales the separation vector
/// by: `c * dot(vB - vA, r) / d2`, each operation truncated.
pub open spec fn damping_coefficient(c: i64, w: i64, d2: i64) -> int {
    fx::fx_div_v(fx::fx_mul_v(c as int, w as int), d2 as int)
}

/// Dissipation, at the level of one evaluation: a damping force with a
/// nonnegative coefficient never pushes along the relative radial
/// motion.  The scalar it scales the separation by has the sign of the
/// relative radial speed `w` — attraction exactly while the particles
/// separate, repulsion exactly while they approach — and the force, when
/// it evaluates, is exactly the separation vector scaled by it.  (The
/// kinetic energy of a whole step can still rise by integration error
/// for a large time step, so only this sign fact is exact.)
pub proof fn lemma_damping_dissipative_sign(
    c: i64,
    a: Particle,
    b: Particle,
    rv: Vector3<units::Position>,
    d2: i64,
    dv: Vector3<units::Velocity>,
    w: i64,
)
    requires
        0 <= c,
        fits(c as int),
        a.wf(),
        b.wf(),
        b.position.spec_minus(a.position) == Some(rv),
        rv.spec_dot(rv) == Some(d2),
        d2 != 0,
        b.velocity.spec_minus(a.velocity) == Some(dv),
        dv.spec_dot(rv) == Some(w),
    ensures
        damping_coefficient(c, w, d2) * w >= 0,
        Force::Damping(c).spec_acting_on_a(a, b) matches Ok(fv) ==> (rv.spec_scale(
            damping_coefficient(c, w, d2) as i64,
        ) matches Some(sv) && fv == sv.spec_cast_unit::<units::Force>()),
{
    rv.lemma_self_dot_nonneg();
    let ci: int = c as int;
    let wi: int = w as int;
    let di: int = d2 as int;
    let t = fx::fx_mul_v(ci, wi);
    let s = fx::fx_div_v(t, di);
    if wi >= 0 {
        assert(ci * wi >= 0) by (nonlinear_arith)
            requires
                ci >= 0,
                wi >= 0,
        ;
        fx::lemma_tdiv_nonneg(ci * wi, SCALE as int);
        fx::lemma_tdiv_nonneg(t * SCALE, di);
        assert(t * SCALE >= 0) by (nonlinear_arith)
            requires
                t >= 0,
        ;
        assert(s * wi >= 0) by (nonlinear_arith)
            requires
                s >= 0,
                wi >= 0,
        ;
    } else {
        assert(ci * wi <= 0) by (nonlinear_arith)
            requires
                ci >= 0,
                wi < 0,
        ;
        assert(-(ci * wi) >= 0);
        fx::lemma_tdiv_nonneg(-(ci * wi), SCALE as int);
        fx::lemma_tdiv_odd(-(ci * wi), SCALE as int);
        assert(t <= 0);
        assert(t * SCALE <= 0) by (nonlinear_arith)
            requires
                t <= 0,
        ;
        fx::lemma_tdiv_nonneg(-(t * SCALE), di);
        fx::lemma_tdiv_odd(-(t * SCALE), di);
        assert(s <= 0);
        assert(s * wi >= 0) by (nonlinear_arith)
            requires
                s <= 0,
                wi < 0,
        ;
    }
}

/// Sphere reflection: a particle on or beyond the boundary whose
/// velocity is exactly the radial vector (purely radially outward) has
/// its velocity exactly sign-flipped by one resolution, and its position
/// untouched.  The magnitude hypotheses keep the doubled quantities in
/// the scalar range.
pub proof fn lemma_sphere_reflection(
    s: Sphere<units::Position>,
    p: Particle,
    rad: Vector3<units::Position>,
    d2m: i64,
)
    requires
        s.wf(),
        p.wf(),
        !s.spec_is_inside(p.position),
        p.position.spec_minus(s.center) == Some(rad),
        p.velocity == rad.spec_cast_unit::<units::Velocity>(),
        rad.spec_dot(rad) == Some(d2m),
        1 <= d2m,
        2 * d2m <= FX_MAX,
        2 * fx::abs(rad.x as int) <= FX_MAX,
        2 * fx::abs(rad.y as int) <= FX_MAX,
        2 * fx::abs(rad.z as int) <= FX_MAX,
    ensures
        ExternalConstraint::spherical_container(s).spec_resolve(p) == Ok::<
            (Vector3<units::Position>, Vector3<units::Velocity>),
            SimulationError,
        >((p.position, p.velocity.spec_negate())),
{
    assert(p.velocity.x == rad.x && p.velocity.y == rad.y && p.velocity.z == rad.z);
    assert(p.velocity.spec_dot(rad) == rad.spec_dot(rad));
    let vr = d2m;
    assert(fx::fx_add_c(vr, vr) == Some((2 * d2m) as i64));
    let t = (2 * d2m) as i64;
    let ti: int = t as int;
    let si: int = SCALE as int;
    let di: int = d2m as int;
    // the quotient 2 * d2m / d2m is exactly 2
    assert(ti * si == (2 * si) * di) by (nonlinear_arith)
        requires
            ti == 2 * di,
    ;
    fx::lemma_tdiv_exact(2 * si, di);
    assert(fx::fx_div_v(ti, di) == 2 * si);
    assert(fx::fx_div_c(t, d2m) == Some((2 * SCALE) as i64));
    let sc = (2 * SCALE) as i64;
    let sci: int = sc as int;
    assert(sci == 2 * si);
    // scaling by exactly 2.0 doubles each component exactly
    let rx: int = rad.x as int;
    let ry: int = rad.y as int;
    let rz: int = rad.z as int;
    assert(rx * sci == (2 * rx) * si) by (nonlinear_arith)
        requires
            sci == 2 * si,
    ;
    assert(ry * sci == (2 * ry) * si) by (nonlinear_arith)
        requires
            sci == 2 * si,
    ;
    assert(rz * sci == (2 * rz) * si) by (nonlinear_arith)
        requires
            sci == 2 * si,
    ;
    fx::lemma_tdiv_exact(2 * rx, si);
    fx::lemma_tdiv_exact(2 * ry, si);
    fx::lemma_tdiv_exact(2 * rz, si);
    assert(fx::fx_mul_v(rx, sci) == 2 * rx);
    assert(rad.spec_scale(sc) is Some);
    let w = rad.spec_scale(sc)->Some_0;
    assert(w.x as int == 2 * rx && w.y as int == 2 * ry && w.z as int == 2 * rz);
    assert(p.velocity.spec_minus(w.spec_cast_unit()) is Some);
    let nv = p.velocity.spec_minus(w.spec_cast_unit())->Some_0;
    assert(nv.x as int == -rx && nv.y as int == -ry && nv.z as int == -rz);
    assert(nv == p.velocity.spec_negate());
}

/// A successful kinematic pass yields exactly one moved particle per
/// stored particle, each with its mass untouched.
proof fn lemma_move_all_preserves_masses(
    particles: Seq<Particle>,
    accs: Seq<Vector3<units::Acceleration>>,
    dt: i64,
    n: int,
)
    requires
        0 <= n <= particles.len(),
    ensures
        spec_move_all(particles, accs, dt, n) matches Ok(s) ==> s.len() == n && (forall|i: int|
            0 <= i < n ==> #[trigger] s[i].mass == particles[i].mass),
    decreases n,
{
    if n > 0 {
        lemma_move_all_preserves_masses(particles, accs, dt, n - 1);
    }
}

/// A successful constraint pass keeps the particle count and every mass.
proof fn lemma_constrain_preserves_masses(particles: Seq<Particle>, cons: Seq<Constraint>, n: int)
    requires
        0 <= n <= cons.len(),
        forall|i: int|
            0 <= i < cons.len() ==> (#[trigger] cons[i]).indices_ok(particles.len()),
    ensures
        spec_constrain(particles, cons, n) matches Ok(s) ==> s.len() == particles.len() && (
        forall|i: int|
            0 <= i < s.len() ==> #[trigger] s[i].mass == particles[i].mass),
    decreases n,
{
    if n > 0 {
        lemma_constrain_preserves_masses(particles, cons, n - 1);
        if spec_constrain(particles, cons, n) is Ok {
            let ps = spec_constrain(particles, cons, n - 1)->Ok_0;
            let s = spec_constrain(particles, cons, n)->Ok_0;
            match cons[n - 1] {
                Constraint::external_constraint(idx, ec) => {
                    assert(cons[n - 1].indices_ok(particles.len()));
                    let pv = ec.spec_resolve(ps[idx as int])->Ok_0;
                    assert(s == ps.update(
                        idx as int,
                        (Particle { position: pv.0, velocity: pv.1, mass: ps[idx as int].mass }),
                    ));
                    assert forall|i: int| 0 <= i < s.len() implies #[trigger] s[i].mass
                        == particles[i].mass by {
                        assert(ps[i].mass == particles[i].mass);
                        if i != idx as int {
                            assert(s[i] == ps[i]);
                        } else {
                            assert(s[i].mass == ps[i].mass);
                        }
                    }
                },
            }
        }
    }
}

/// A step never creates, removes or re-weighs a particle: a successful
/// step yields exactly the stored particles, in order, with their
/// masses untouched.  Together with `advance_time`'s contract, the
/// particle count is fixed once stepping begins.
pub proof fn lemma_step_preserves_particles(
    particles: Seq<Particle>,
    inters: Seq<Interaction>,
    cons: Seq<Constraint>,
    dt: i64,
)
    requires
        forall|i: int|
            0 <= i < cons.len() ==> (#[trigger] cons[i]).indices_ok(particles.len()),
    ensures
        spec_step(particles, inters, cons, dt) matches Ok(ps) ==> ps.len() == particles.len() && (
        forall|i: int|
            0 <= i < ps.len() ==> #[trigger] ps[i].mass == particles[i].mass),
{
    if spec_step(particles, inters, cons, dt) is Ok {
        let accs = spec_accum(particles, inters, inters.len() as int)->Ok_0;
        lemma_move_all_preserves_masses(particles, accs, dt, particles.len() as int);
        let moved = spec_move_all(particles, accs, dt, particles.len() as int)->Ok_0;
        lemma_constrain_preserves_masses(moved, cons, cons.len() as int);
    }
}

/// Determinism: one step is a mathematical function of the state, the
/// registered interactions and constraints, and the time step.  Two
/// systems built identically and stepped identically stay identical;
/// `advance_time`'s contract ties the executable step to this function.
pub proof fn lemma_step_deterministic(
    particles1: Seq<Particle>,
    inters1: Seq<Interaction>,
    cons1: Seq<Constraint>,
    dt1: i64,
    particles2: Seq<Particle>,
    inters2: Seq<Interaction>,
    cons2: Seq<Constraint>,
    dt2: i64,
)
    requires
        particles1 == particles2,
        inters1 == inters2,
        cons1 == cons2,
        dt1 == dt2,
    ensures
        spec_step(particles1, inters1, cons1, dt1) == spec_step(particles2, inters2, cons2, dt2),
{
}

/// Snapshot idempotence under no advance: taking a snapshot moves the
/// system to a state that differs only in the sequence counter, so a
/// second snapshot reports the same time and the same particle rows,
/// with the next sequence number.
pub proof fn lemma_snapshot_idempotent(before: ParticlesSystem, after: ParticlesSystem)
    requires
        after.particles@ == before.particles@,
        after.time == before.time,
        after.n_snapshots_saved == before.n_snapshots_saved + 1,
    ensures
        spec_snapshot_rows(after.particles@) == spec_snapshot_rows(before.particles@),
        after.time == before.time,
        after.n_snapshots_saved == before.n_snapshots_saved + 1,
{
}

/// Restore accepts a representation exactly when it is valid: the
/// ordered error scan reports nothing if and only if every stored item
/// would pass construction-time validation.
pub proof fn lemma_restore_error_none_iff_valid(s: SystemState)
    ensures
        spec_restore_error(s) is None <==> spec_state_valid(s),
{
    if spec_restore_error(s) is None {
        assert forall|i: int| 0 <= i < s.interactions@.len() implies (
        #[trigger] s.interactions@[i]).wf(s.particles@.len()) by {
            assert(s.interactions@[i].indices_ok(s.particles@.len()));
            assert(s.interactions@[i].params_ok());
        }
        assert forall|i: int| 0 <= i < s.constraints@.len() implies (
        #[trigger] s.constraints@[i]).wf(s.particles@.len()) by {
            assert(s.constraints@[i].indices_ok(s.particles@.len()));
            assert(s.constraints@[i].params_ok());
        }
    }
    if spec_state_valid(s) {
        assert forall|i: int| 0 <= i < s.interactions@.len() implies (
        #[trigger] s.interactions@[i]).indices_ok(s.particles@.len()) && (
        s.interactions@[i]).params_ok() by {
            assert(s.interactions@[i].wf(s.particles@.len()));
        }
        assert forall|i: int| 0 <= i < s.constraints@.len() implies (
        #[trigger] s.constraints@[i]).indices_ok(s.particles@.len()) && (
        s.constraints@[i]).params_ok() by {
            assert(s.constraints@[i].wf(s.particles@.len()));
        }
    }
}

/// Round trip: the full representation exported from any valid system
/// passes restore's validation, so `restore(export(system))` always
/// succeeds and reproduces the system's exact state — by
/// `lemma_step_deterministic`, its subsequent steps are identical.
pub proof fn lemma_export_restore_roundtrip(sys: ParticlesSystem, state: SystemState)
    requires
        sys.wf(),
        state.particles@ == sys.particles@,
        state.interactions@ == sys.interactions@,
        state.constraints@ == sys.constraints@,
        state.time == sys.time,
        state.n_snapshots_saved == sys.n_snapshots_saved,
    ensures
        spec_state_valid(state),
        spec_restore_error(state) is None,
{
    assert forall|i: int| 0 <= i < state.interactions@.len() implies (
    #[trigger] state.interactions@[i]).indices_ok(state.particles@.len())
        && (state.interactions@[i]).params_ok() by {
        assert(state.interactions@[i].wf(state.particles@.len()));
    }
    assert forall|i: int| 0 <= i < state.constraints@.len() implies (
    #[trigger] state.constraints@[i]).indices_ok(state.particles@.len())
        && (state.constraints@[i]).params_ok() by {
        assert(state.constraints@[i].wf(state.particles@.len()));
    }
}

} // verus!
