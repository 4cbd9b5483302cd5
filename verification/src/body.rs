//! The core's view of a physics body, and the bounds under which the damage
//! and fragmentation arithmetic is proved free of overflow.

use vstd::prelude::*;

use crate::chunk::COORD_LIMIT;
use crate::fixed::{mul_milli, Vec2Fix};
use crate::types::Asteroid;

verus! {

/// Largest milli-scaled mass a body may carry (1000 world mass units).
pub const MASS_LIMIT: i64 = 1000000;

/// Largest milli-scaled velocity component (10000 world units per second).
pub const VEL_LIMIT: i64 = 10000000;

/// Largest milli-scaled sturdiness magnitude.  One collision moves
/// sturdiness by at most twice the damage energy, which stays well below
/// this bound, so the bound is preserved across any number of contacts.
pub const STURDINESS_LIMIT: i64 = 1000000000000000;

/// Largest milli-scaled asteroid linear scale (1000000 world units).
pub const SCALE_LIMIT: i64 = 1000000000;

/// Largest milli-scaled kinetic energy of a valid body:
/// `MASS_LIMIT * (2 * VEL_LIMIT^2 / 1000) / 1000 / 2`.
pub const KINETIC_ENERGY_LIMIT: i64 = 100000000000000;

/// A body as the external physics engine reports it, together with the two
/// domain fields the core owns: scale (on asteroids) and sturdiness.
#[derive(Clone, Copy, Debug)]
pub struct Body {
    /// The engine's handle for the body.
    pub handle: u64,
    /// Position, milli-scaled world coordinates.
    pub pos: Vec2Fix,
    /// Linear velocity, milli-scaled units per second.
    pub vel: Vec2Fix,
    /// Mass, milli-scaled.
    pub mass: i64,
    /// Restitution coefficient of the body's collider, milli-scaled
    /// (0..=1000).
    pub restitution: i64,
    /// Structural integrity, milli-scaled; the body is destroyed once this
    /// is at or below zero.
    pub sturdiness: i64,
    /// `Some` with the linear scale when the body is an asteroid.
    pub asteroid: Option<Asteroid>,
}

/// The ranges the engine is trusted to keep bodies in; every arithmetic step
/// of the damage and fragmentation passes is proved not to overflow under
/// them, and the damage pass is proved to keep them.
pub open spec fn valid_body(b: Body) -> bool {
    &&& 0 <= b.mass <= MASS_LIMIT
    &&& -VEL_LIMIT <= b.vel.x <= VEL_LIMIT
    &&& -VEL_LIMIT <= b.vel.y <= VEL_LIMIT
    &&& 0 <= b.restitution <= 1000
    &&& -STURDINESS_LIMIT <= b.sturdiness <= STURDINESS_LIMIT
    &&& -COORD_LIMIT <= b.pos.x <= COORD_LIMIT
    &&& -COORD_LIMIT <= b.pos.y <= COORD_LIMIT
    &&& match b.asteroid {
        Some(Asteroid(s)) => 0 <= s <= SCALE_LIMIT,
        None => true,
    }
}

/// Kinetic energy of a mass moving at a velocity, milli-scaled:
/// `m * |v|^2 / 2`.
pub open spec fn kinetic_energy(mass: int, vel: Vec2Fix) -> int {
    mul_milli(mass, vel.len2_milli()) / 2
}

/// The squared length of a velocity within `bound` on both components lies
/// in `[0, 2 * bound^2 / 1000]`.
pub proof fn lemma_len2_bounds(vel: Vec2Fix, bound: int)
    requires
        0 <= bound,
        -bound <= vel.x <= bound,
        -bound <= vel.y <= bound,
    ensures
        0 <= vel.len2_milli() <= 2 * bound * bound / 1000,
{
    assert(0 <= vel.x * vel.x <= bound * bound && 0 <= vel.y * vel.y <= bound * bound)
        by (nonlinear_arith)
        requires
            0 <= bound,
            -bound <= vel.x <= bound,
            -bound <= vel.y <= bound,
    ;
    assert(2 * bound * bound == bound * bound + bound * bound) by (nonlinear_arith);
    vstd::arithmetic::div_mod::lemma_div_pos_is_pos(vel.x * vel.x + vel.y * vel.y, 1000int);
    vstd::arithmetic::div_mod::lemma_div_is_ordered(
        vel.x * vel.x + vel.y * vel.y,
        2 * bound * bound,
        1000int,
    );
}

/// For a valid body the kinetic energy lies in `[0, KINETIC_ENERGY_LIMIT]`.
pub proof fn lemma_kinetic_energy_bounds(mass: int, vel: Vec2Fix)
    requires
        0 <= mass <= MASS_LIMIT,
        -VEL_LIMIT <= vel.x <= VEL_LIMIT,
        -VEL_LIMIT <= vel.y <= VEL_LIMIT,
    ensures
        0 <= kinetic_energy(mass, vel) <= KINETIC_ENERGY_LIMIT,
{
    lemma_len2_bounds(vel, VEL_LIMIT as int);
    let len2 = vel.len2_milli();
    assert(0 <= mass * len2 <= 200000000000000000) by (nonlinear_arith)
        requires
            0 <= mass <= MASS_LIMIT as int,
            0 <= len2 <= 200000000000,
    ;
    vstd::arithmetic::div_mod::lemma_div_pos_is_pos(mass * len2, 1000int);
    vstd::arithmetic::div_mod::lemma_div_is_ordered(mass * len2, 200000000000000000, 1000int);
    vstd::arithmetic::div_mod::lemma_div_pos_is_pos(mul_milli(mass as int, len2), 2int);
    vstd::arithmetic::div_mod::lemma_div_is_ordered(
        mul_milli(mass as int, len2),
        200000000000000,
        2int,
    );
}

/// Kinetic energy of one body.
pub fn body_kinetic_energy(b: &Body) -> (e: i64)
    requires
        valid_body(*b),
    ensures
        e == kinetic_energy(b.mass as int, b.vel),
        0 <= e <= KINETIC_ENERGY_LIMIT,
{
    proof {
        lemma_kinetic_energy_bounds(b.mass as int, b.vel);
        lemma_len2_bounds(b.vel, VEL_LIMIT as int);
    }
    let len2 = b.vel.len2_milli64();
    let m_len2 = crate::fixed::mul_milli64(b.mass, len2);
    proof {
        vstd::arithmetic::div_mod::lemma_div_pos_is_pos(b.mass * len2, 1000int);
    }
    m_len2 / 2
}

/// Total kinetic energy of a set of bodies.
pub open spec fn total_kinetic_energy(bodies: Seq<Body>) -> int
    decreases bodies.len(),
{
    if bodies.len() == 0 {
        0
    } else {
        total_kinetic_energy(bodies.drop_last()) + kinetic_energy(
            bodies.last().mass as int,
            bodies.last().vel,
        )
    }
}

/// Total kinetic energy of all bodies (the periodic diagnostic readout).
pub fn total_ke(bodies: &Vec<Body>) -> (e: i128)
    requires
        forall|i: int| 0 <= i < bodies@.len() ==> valid_body(#[trigger] bodies@[i]),
    ensures
        e == total_kinetic_energy(bodies@),
{
    let n = bodies.len();
    let mut e: i128 = 0;
    let mut i: usize = 0;
    while i < n
        invariant
            n == bodies@.len(),
            i <= n,
            forall|k: int| 0 <= k < bodies@.len() ==> valid_body(#[trigger] bodies@[k]),
            e == total_kinetic_energy(bodies@.take(i as int)),
            0 <= e <= i * (KINETIC_ENERGY_LIMIT as int),
        decreases n - i,
    {
        proof {
            lemma_total_kinetic_energy_bound(bodies@.take(i as int));
        }
        let ke = body_kinetic_energy(&bodies[i]);
        proof {
            assert(bodies@.take(i + 1).drop_last() =~= bodies@.take(i as int));
            assert(bodies@.take(i + 1).last() == bodies@[i as int]);
            assert(i * (KINETIC_ENERGY_LIMIT as int) + KINETIC_ENERGY_LIMIT == (i + 1) * (
            KINETIC_ENERGY_LIMIT as int)) by (nonlinear_arith);
        }
        e = e + (ke as i128);
        i += 1;
    }
    proof {
        assert(bodies@.take(n as int) =~= bodies@);
    }
    e
}

/// The total kinetic energy of `n` valid bodies is at most `n` times the
/// per-body limit.
pub proof fn lemma_total_kinetic_energy_bound(bodies: Seq<Body>)
    requires
        forall|i: int| 0 <= i < bodies.len() ==> valid_body(#[trigger] bodies[i]),
    ensures
        0 <= total_kinetic_energy(bodies) <= bodies.len() * (KINETIC_ENERGY_LIMIT as int),
    decreases bodies.len(),
{
    if bodies.len() == 0 {
    } else {
        lemma_total_kinetic_energy_bound(bodies.drop_last());
        let b = bodies.last();
        lemma_kinetic_energy_bounds(b.mass as int, b.vel);
        assert((bodies.len() - 1) * (KINETIC_ENERGY_LIMIT as int) + KINETIC_ENERGY_LIMIT
            == bodies.len() * (KINETIC_ENERGY_LIMIT as int)) by (nonlinear_arith);
    }
}

} // verus!
