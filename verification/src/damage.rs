//! Collision-driven structural damage.
//!
//! One contact-start event names two bodies.  Each body's damage energy uses
//! the *other* body's mass — energy delivered to the target scaled by the
//! impactor's inertia contribution, an approximation kept exactly as the
//! gameplay defines it — reduced by the inelastic loss of the averaged
//! restitution, and is then divided by the target's current sturdiness, so
//! that weaker bodies decay at an accelerating rate.

use vstd::prelude::*;

use crate::body::{valid_body, Body, STURDINESS_LIMIT, VEL_LIMIT};
use crate::fixed::{mul_milli, Vec2Fix};

verus! {

/// Largest milli-scaled damage energy a contact between valid bodies can
/// carry against one of them.
pub const DAMAGE_ENERGY_LIMIT: i64 = 400000000000000;

/// The relative velocity of two bodies (components of valid bodies stay in
/// range, so the casts do not clip).
pub open spec fn rel_vel(a: Vec2Fix, b: Vec2Fix) -> Vec2Fix {
    Vec2Fix { x: (a.x - b.x) as i64, y: (a.y - b.y) as i64 }
}

/// The inelastic loss fraction `1 - restitution^2`, milli-scaled.
pub open spec fn loss_fraction(restitution: int) -> int {
    1000 - mul_milli(restitution, restitution)
}

/// Milli-scaled damage energy delivered to `target` by a contact with
/// `other`: `0.5 * m_other * |v_rel|^2 * (1 - restitution^2)`, with the
/// restitution averaged over the two colliders.
pub open spec fn damage_energy(target: Body, other: Body) -> int {
    let relv2 = rel_vel(target.vel, other.vel).len2_milli();
    let impact = mul_milli(other.mass as int, relv2) / 2;
    mul_milli(impact, loss_fraction((target.restitution + other.restitution) / 2))
}

/// Sturdiness after absorbing damage energy `e`: `s - 2*e/s` at milli scale
/// (the constant 1/500 at world scale).  The quotient truncates toward zero.
/// A body at exactly zero is already due for destruction and the formula is
/// undefined on it, so it is left unchanged.
pub open spec fn damage_result(s: int, e: int) -> int {
    if s > 0 {
        s - (2 * e) / s
    } else if s < 0 {
        s + (2 * e) / (-s)
    } else {
        s
    }
}

/// The sturdiness `target` is left with after a contact with `other`.
pub open spec fn damaged_sturdiness(target: Body, other: Body) -> int {
    damage_result(target.sturdiness as int, damage_energy(target, other))
}

/// The damage energy of a contact between valid bodies is nonnegative and
/// bounded.
pub proof fn lemma_damage_energy_bounds(target: Body, other: Body)
    requires
        valid_body(target),
        valid_body(other),
    ensures
        0 <= rel_vel(target.vel, other.vel).len2_milli() <= 800000000000,
        0 <= mul_milli(other.mass as int, rel_vel(target.vel, other.vel).len2_milli())
            <= 800000000000000,
        0 <= mul_milli(
            (target.restitution + other.restitution) / 2,
            (target.restitution + other.restitution) / 2,
        ) <= 1000,
        0 <= loss_fraction((target.restitution + other.restitution) / 2) <= 1000,
        0 <= mul_milli(
            mul_milli(other.mass as int, rel_vel(target.vel, other.vel).len2_milli()) / 2,
            loss_fraction((target.restitution + other.restitution) / 2),
        ) <= DAMAGE_ENERGY_LIMIT,
        0 <= damage_energy(target, other) <= DAMAGE_ENERGY_LIMIT,
{
    let dv = rel_vel(target.vel, other.vel);
    crate::body::lemma_len2_bounds(dv, 2 * VEL_LIMIT);
    let relv2 = dv.len2_milli();
    assert(2 * (2 * VEL_LIMIT) * (2 * VEL_LIMIT) / 1000 == 800000000000int) by (nonlinear_arith);
    assert(relv2 <= 800000000000);
    let m = other.mass as int;
    assert(0 <= m * relv2 <= 800000000000000000) by (nonlinear_arith)
        requires
            0 <= m <= 1000000,
            0 <= relv2 <= 800000000000,
    ;
    vstd::arithmetic::div_mod::lemma_div_pos_is_pos(m * relv2, 1000int);
    vstd::arithmetic::div_mod::lemma_div_is_ordered(m * relv2, 800000000000000000, 1000int);
    let impact = mul_milli(m, relv2) / 2;
    vstd::arithmetic::div_mod::lemma_div_pos_is_pos(mul_milli(m, relv2), 2int);
    vstd::arithmetic::div_mod::lemma_div_is_ordered(mul_milli(m, relv2), 800000000000000, 2int);
    let rest = (target.restitution + other.restitution) / 2;
    let loss = loss_fraction(rest as int);
    assert(0 <= rest * rest <= 1000000) by (nonlinear_arith)
        requires
            0 <= rest <= 1000,
    ;
    vstd::arithmetic::div_mod::lemma_div_pos_is_pos(rest * rest, 1000int);
    vstd::arithmetic::div_mod::lemma_div_is_ordered(rest * rest, 1000000, 1000int);
    assert(0 <= loss <= 1000);
    assert(0 <= impact * loss <= 400000000000000000) by (nonlinear_arith)
        requires
            0 <= impact <= 400000000000000,
            0 <= loss <= 1000,
    ;
    vstd::arithmetic::div_mod::lemma_div_pos_is_pos(impact * loss, 1000int);
    vstd::arithmetic::div_mod::lemma_div_is_ordered(impact * loss, 400000000000000000, 1000int);
}

/// Damage keeps sturdiness within its bound, and never raises a positive
/// sturdiness.
pub proof fn lemma_damage_result_bounds(s: int, e: int)
    requires
        -STURDINESS_LIMIT <= s <= STURDINESS_LIMIT,
        0 <= e <= DAMAGE_ENERGY_LIMIT,
    ensures
        -STURDINESS_LIMIT <= damage_result(s, e) <= STURDINESS_LIMIT,
        s > 0 ==> damage_result(s, e) <= s,
{
    if s > 0 {
        vstd::arithmetic::div_mod::lemma_div_pos_is_pos(2 * e, s);
        vstd::arithmetic::div_mod::lemma_div_is_ordered_by_denominator(2 * e, 1, s);
        vstd::arithmetic::div_mod::lemma_div_basics(2 * e);
        assert(0 <= (2 * e) / s <= 2 * e);
    } else if s < 0 {
        vstd::arithmetic::div_mod::lemma_div_pos_is_pos(2 * e, -s);
        vstd::arithmetic::div_mod::lemma_div_is_ordered_by_denominator(2 * e, 1, -s);
        vstd::arithmetic::div_mod::lemma_div_basics(2 * e);
        assert(0 <= (2 * e) / (-s) <= 2 * e);
    }
}

/// Sturdiness never increases as a result of a collision, for any body whose
/// sturdiness is still positive (a body already at or below zero is due for
/// destruction; on a negative value the formula of the model raises the
/// value instead, which is why the positivity premise is needed).
pub proof fn lemma_sturdiness_monotonic(target: Body, other: Body)
    requires
        valid_body(target),
        valid_body(other),
        target.sturdiness > 0,
    ensures
        damaged_sturdiness(target, other) <= target.sturdiness,
{
    lemma_damage_energy_bounds(target, other);
    lemma_damage_result_bounds(target.sturdiness as int, damage_energy(target, other));
}

/// With no relative motion there is no damage: both bodies keep their
/// sturdiness exactly (in particular for two bodies of equal mass).
pub proof fn lemma_zero_relative_velocity_no_damage(a: Body, b: Body)
    requires
        valid_body(a),
        valid_body(b),
        a.vel == b.vel,
    ensures
        damaged_sturdiness(a, b) == a.sturdiness,
        damaged_sturdiness(b, a) == b.sturdiness,
{
    let dv = rel_vel(a.vel, b.vel);
    assert(dv.x == 0 && dv.y == 0);
    assert(dv.len2_milli() == 0) by {
        vstd::arithmetic::div_mod::lemma_div_of0(1000int);
    }
    lemma_no_energy_no_damage(a, b);
    lemma_no_energy_no_damage(b, a);
}

/// A contact that carries no damage energy leaves the target's sturdiness
/// unchanged.
proof fn lemma_no_energy_no_damage(target: Body, other: Body)
    requires
        valid_body(target),
        valid_body(other),
        rel_vel(target.vel, other.vel).len2_milli() == 0,
    ensures
        damaged_sturdiness(target, other) == target.sturdiness,
{
    let m = other.mass as int;
    assert(m * 0 == 0) by (nonlinear_arith);
    vstd::arithmetic::div_mod::lemma_div_of0(1000int);
    vstd::arithmetic::div_mod::lemma_div_of0(2int);
    assert(damage_energy(target, other) == mul_milli(0, loss_fraction((target.restitution
        + other.restitution) / 2)));
    assert(0 * loss_fraction((target.restitution + other.restitution) / 2) == 0)
        by (nonlinear_arith);
    assert(damage_energy(target, other) == 0);
    let s = target.sturdiness as int;
    if s > 0 {
        vstd::arithmetic::div_mod::lemma_div_of0(s);
    } else if s < 0 {
        vstd::arithmetic::div_mod::lemma_div_of0(-s);
    }
}

/// One damage step: sturdiness `s` absorbing energy `e`.
fn damage_step(s: i64, e: i64) -> (r: i64)
    requires
        -STURDINESS_LIMIT <= s <= STURDINESS_LIMIT,
        0 <= e <= DAMAGE_ENERGY_LIMIT,
    ensures
        r == damage_result(s as int, e as int),
        -STURDINESS_LIMIT <= r <= STURDINESS_LIMIT,
{
    proof {
        lemma_damage_result_bounds(s as int, e as int);
    }
    if s > 0 {
        s - (2 * e) / s
    } else if s < 0 {
        s + (2 * e) / (-s)
    } else {
        s
    }
}

/// The sturdiness both bodies of one contact are left with: first the new
/// value for `a`, then for `b`, both computed from the state before the
/// contact.  No randomness is involved: equal inputs give equal results.
pub fn contact_damage(a: &Body, b: &Body) -> (r: (i64, i64))
    requires
        valid_body(*a),
        valid_body(*b),
    ensures
        r.0 == damaged_sturdiness(*a, *b),
        r.1 == damaged_sturdiness(*b, *a),
        -STURDINESS_LIMIT <= r.0 <= STURDINESS_LIMIT,
        -STURDINESS_LIMIT <= r.1 <= STURDINESS_LIMIT,
        a.sturdiness > 0 ==> r.0 <= a.sturdiness,
        b.sturdiness > 0 ==> r.1 <= b.sturdiness,
{
    proof {
        lemma_damage_energy_bounds(*a, *b);
        lemma_damage_energy_bounds(*b, *a);
        if a.sturdiness > 0 {
            lemma_sturdiness_monotonic(*a, *b);
        }
        if b.sturdiness > 0 {
            lemma_sturdiness_monotonic(*b, *a);
        }
    }
    let e_a = damage_energy_against(a, b);
    let e_b = damage_energy_against(b, a);
    let sa = damage_step(a.sturdiness, e_a);
    let sb = damage_step(b.sturdiness, e_b);
    (sa, sb)
}

/// Executable damage energy delivered to `target` by `other`.
fn damage_energy_against(target: &Body, other: &Body) -> (e: i64)
    requires
        valid_body(*target),
        valid_body(*other),
    ensures
        e == damage_energy(*target, *other),
        0 <= e <= DAMAGE_ENERGY_LIMIT,
{
    proof {
        lemma_damage_energy_bounds(*target, *other);
    }
    let dv = target.vel.sub(other.vel);
    proof {
        assert(dv == rel_vel(target.vel, other.vel));
    }
    let relv2 = dv.len2_milli64();
    let impact = crate::fixed::mul_milli64(other.mass, relv2) / 2;
    proof {
        vstd::arithmetic::div_mod::lemma_div_pos_is_pos(
            mul_milli(other.mass as int, relv2 as int),
            2int,
        );
    }
    let rest = (target.restitution + other.restitution) / 2;
    let loss = 1000 - crate::fixed::mul_milli64(rest, rest);
    crate::fixed::mul_milli64(impact, loss)
}

/// A contact-start event: the engine's handles of the two touching bodies.
#[derive(Clone, Copy, PartialEq, Eq, Structural, Debug)]
pub struct ContactEvent {
    pub a: u64,
    pub b: u64,
}

/// Index of the first body with handle `h`, or -1 when none exists.
pub open spec fn find_handle(bodies: Seq<Body>, h: u64) -> int
    decreases bodies.len(),
{
    if bodies.len() == 0 {
        -1
    } else if bodies[0].handle == h {
        0
    } else {
        let r = find_handle(bodies.drop_first(), h);
        if r < 0 {
            -1
        } else {
            r + 1
        }
    }
}

/// `find_handle` returns -1 exactly when no body carries the handle, and
/// otherwise the first index that does.
pub proof fn lemma_find_handle(bodies: Seq<Body>, h: u64)
    ensures
        find_handle(bodies, h) == -1 ==> forall|k: int|
            0 <= k < bodies.len() ==> (#[trigger] bodies[k]).handle != h,
        find_handle(bodies, h) >= 0 ==> {
            let r = find_handle(bodies, h);
            &&& 0 <= r < bodies.len()
            &&& bodies[r].handle == h
            &&& forall|k: int| 0 <= k < r ==> (#[trigger] bodies[k]).handle != h
        },
    decreases bodies.len(),
{
    if bodies.len() == 0 {
    } else if bodies[0].handle == h {
    } else {
        let rest = bodies.drop_first();
        lemma_find_handle(rest, h);
        let r0 = find_handle(rest, h);
        if r0 < 0 {
            assert(find_handle(bodies, h) == -1);
            assert forall|k: int| 0 <= k < bodies.len() implies (#[trigger] bodies[k]).handle
                != h by {
                if k > 0 {
                    assert(rest[k - 1] == bodies[k]);
                    assert(rest[k - 1].handle != h);
                }
            }
        } else {
            assert(find_handle(bodies, h) == r0 + 1);
            assert(rest[r0] == bodies[r0 + 1]);
            assert forall|k: int| 0 <= k < r0 + 1 implies (#[trigger] bodies[k]).handle != h by {
                if k > 0 {
                    assert(rest[k - 1] == bodies[k]);
                    assert(rest[k - 1].handle != h);
                }
            }
        }
    }
}

/// The body set after one contact event: when both handles are present, each
/// body's sturdiness is replaced with its damaged value, both computed from
/// the state before the event; the damage of a contact needs both bodies'
/// state, so an event naming a body that no longer exists does nothing.
pub open spec fn apply_event(bodies: Seq<Body>, e: ContactEvent) -> Seq<Body> {
    let ia = find_handle(bodies, e.a);
    let ib = find_handle(bodies, e.b);
    if ia >= 0 && ib >= 0 {
        let a = bodies[ia];
        let b = bodies[ib];
        bodies.update(ia, Body { sturdiness: damaged_sturdiness(a, b) as i64, ..a }).update(
            ib,
            Body { sturdiness: damaged_sturdiness(b, a) as i64, ..b },
        )
    } else {
        bodies
    }
}

/// The body set after a sequence of contact events, applied in order.
pub open spec fn apply_events(bodies: Seq<Body>, events: Seq<ContactEvent>) -> Seq<Body>
    decreases events.len(),
{
    if events.len() == 0 {
        bodies
    } else {
        apply_event(apply_events(bodies, events.drop_last()), events.last())
    }
}

/// One event keeps every body valid: only sturdiness changes, within its
/// bound.
pub proof fn lemma_apply_event_valid(bodies: Seq<Body>, e: ContactEvent)
    requires
        forall|i: int| 0 <= i < bodies.len() ==> valid_body(#[trigger] bodies[i]),
    ensures
        apply_event(bodies, e).len() == bodies.len(),
        forall|i: int|
            0 <= i < bodies.len() ==> valid_body(#[trigger] apply_event(bodies, e)[i]),
{
    let ia = find_handle(bodies, e.a);
    let ib = find_handle(bodies, e.b);
    lemma_find_handle(bodies, e.a);
    lemma_find_handle(bodies, e.b);
    if ia >= 0 && ib >= 0 {
        let a = bodies[ia];
        let b = bodies[ib];
        lemma_damage_energy_bounds(a, b);
        lemma_damage_energy_bounds(b, a);
        lemma_damage_result_bounds(a.sturdiness as int, damage_energy(a, b));
        lemma_damage_result_bounds(b.sturdiness as int, damage_energy(b, a));
    }
}

/// Process one tick's contact events: apply the damage of each event in
/// order.  Bodies stay valid whatever the events name.
pub fn damage(bodies: &mut Vec<Body>, events: &Vec<ContactEvent>)
    requires
        forall|i: int| 0 <= i < old(bodies)@.len() ==> valid_body(#[trigger] old(bodies)@[i]),
    ensures
        final(bodies)@ == apply_events(old(bodies)@, events@),
        forall|i: int| 0 <= i < final(bodies)@.len() ==> valid_body(#[trigger] final(bodies)@[i]),
{
    let n = events.len();
    let mut i: usize = 0;
    while i < n
        invariant
            n == events@.len(),
            i <= n,
            bodies@ == apply_events(old(bodies)@, events@.take(i as int)),
            forall|k: int| 0 <= k < bodies@.len() ==> valid_body(#[trigger] bodies@[k]),
        decreases n - i,
    {
        let e = events[i];
        proof {
            lemma_apply_event_valid(bodies@, e);
            assert(events@.take(i + 1).drop_last() =~= events@.take(i as int));
            assert(events@.take(i + 1).last() == events@[i as int]);
        }
        apply_one_contact(bodies, e);
        i += 1;
    }
    proof {
        assert(events@.take(n as int) =~= events@);
    }
}

/// Apply a single contact event to the body set.
fn apply_one_contact(bodies: &mut Vec<Body>, e: ContactEvent)
    requires
        forall|i: int| 0 <= i < old(bodies)@.len() ==> valid_body(#[trigger] old(bodies)@[i]),
    ensures
        final(bodies)@ == apply_event(old(bodies)@, e),
{
    proof {
        lemma_find_handle(bodies@, e.a);
        lemma_find_handle(bodies@, e.b);
    }
    let ia = find_index(bodies, e.a);
    let ib = find_index(bodies, e.b);
    match (ia, ib) {
        (Some(ia), Some(ib)) => {
            let a = bodies[ia];
            let b = bodies[ib];
            let (sa, sb) = contact_damage(&a, &b);
            let mut a2 = a;
            a2.sturdiness = sa;
            let mut b2 = b;
            b2.sturdiness = sb;
            bodies[ia] = a2;
            bodies[ib] = b2;
        },
        _ => {},
    }
}

/// Index of the first body with handle `h`.
fn find_index(bodies: &Vec<Body>, h: u64) -> (r: Option<usize>)
    ensures
        match r {
            Some(i) => i == find_handle(bodies@, h),
            None => find_handle(bodies@, h) == -1,
        },
{
    let n = bodies.len();
    let mut i: usize = 0;
    while i < n
        invariant
            n == bodies@.len(),
            i <= n,
            forall|k: int| 0 <= k < i ==> (#[trigger] bodies@[k]).handle != h,
        decreases n - i,
    {
        if bodies[i].handle == h {
            proof {
                lemma_find_handle(bodies@, h);
                let r = find_handle(bodies@, h);
                if r < 0 {
                    assert(bodies@[i as int].handle != h);
                }
                if 0 <= r < i {
                    assert(bodies@[r].handle != h);
                }
            }
            return Some(i);
        }
        i += 1;
    }
    proof {
        lemma_find_handle(bodies@, h);
        let r = find_handle(bodies@, h);
        if r >= 0 {
            assert(bodies@[r].handle == h);
        }
    }
    None
}

} // verus!
