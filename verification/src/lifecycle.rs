//! Destruction of worn-out bodies and the time-based despawn of bullets.
//!
//! Each tick, after the damage pass has committed its sturdiness changes,
//! every body at or below zero sturdiness is removed; a removed asteroid
//! above the scale threshold is replaced by its three daughters.

use vstd::prelude::*;

use crate::asteroid::{
    fragment_daughters, generate_daughters, AsteroidInit, FRAGMENT_SCALE_THRESHOLD,
};
use crate::body::{valid_body, Body};
use crate::types::{Asteroid, DespawnAfter, SpawnedAt};

verus! {

/// Milli-scaled timestamps handed to the despawn check stay within this
/// bound, so the age subtraction cannot overflow.
pub const TIME_LIMIT: i64 = 1000000000000000000;

/// A body survives the tick while its sturdiness is above zero.
pub open spec fn survives(b: Body) -> bool {
    b.sturdiness > 0
}

/// A destroyed asteroid fragments when its scale is above the threshold;
/// smaller fragments, and bodies that are not asteroids, simply vanish.
pub open spec fn fragments(b: Body) -> bool {
    !survives(b) && match b.asteroid {
        Some(Asteroid(s)) => s > FRAGMENT_SCALE_THRESHOLD,
        None => false,
    }
}

/// The scale of an asteroid body (zero on other bodies).
pub open spec fn scale_of(b: Body) -> int {
    match b.asteroid {
        Some(Asteroid(s)) => s as int,
        None => 0,
    }
}

/// The bodies that survive the destruction pass, in order.
pub open spec fn survivors(bodies: Seq<Body>) -> Seq<Body>
    decreases bodies.len(),
{
    if bodies.len() == 0 {
        Seq::empty()
    } else {
        let rest = survivors(bodies.drop_last());
        if survives(bodies.last()) {
            rest.push(bodies.last())
        } else {
            rest
        }
    }
}

/// The daughters spawned by the destruction pass, in body order.
pub open spec fn spawned_daughters(bodies: Seq<Body>) -> Seq<AsteroidInit>
    decreases bodies.len(),
{
    if bodies.len() == 0 {
        Seq::empty()
    } else {
        let b = bodies.last();
        spawned_daughters(bodies.drop_last()) + if fragments(b) {
            fragment_daughters(b.pos, b.vel, b.mass as int, scale_of(b), b.sturdiness as int)
        } else {
            Seq::empty()
        }
    }
}

/// The destruction pass: keep the bodies whose sturdiness is above zero;
/// for each destroyed asteroid above the scale threshold, produce its three
/// daughters.  Destruction is decided body by body in order, so a body
/// destroyed by an earlier contact this tick fragments this tick.
pub fn health(bodies: &Vec<Body>) -> (r: (Vec<Body>, Vec<AsteroidInit>))
    requires
        forall|i: int| 0 <= i < bodies@.len() ==> valid_body(#[trigger] bodies@[i]),
    ensures
        r.0@ == survivors(bodies@),
        r.1@ == spawned_daughters(bodies@),
        forall|i: int|
            0 <= i < r.0@.len() ==> valid_body(#[trigger] r.0@[i]) && r.0@[i].sturdiness > 0,
{
    let n = bodies.len();
    let mut kept: Vec<Body> = Vec::new();
    let mut spawned: Vec<AsteroidInit> = Vec::new();
    let mut i: usize = 0;
    while i < n
        invariant
            n == bodies@.len(),
            i <= n,
            forall|k: int| 0 <= k < bodies@.len() ==> valid_body(#[trigger] bodies@[k]),
            kept@ == survivors(bodies@.take(i as int)),
            spawned@ == spawned_daughters(bodies@.take(i as int)),
            forall|k: int|
                0 <= k < kept@.len() ==> valid_body(#[trigger] kept@[k]) && kept@[k].sturdiness
                    > 0,
        decreases n - i,
    {
        let b = bodies[i];
        proof {
            assert(bodies@.take(i + 1).drop_last() =~= bodies@.take(i as int));
            assert(bodies@.take(i + 1).last() == bodies@[i as int]);
        }
        if b.sturdiness > 0 {
            kept.push(b);
            proof {
                assert(spawned@ =~= spawned_daughters(bodies@.take(i + 1)));
            }
        } else {
            let mut fragment = false;
            let mut scale: i64 = 0;
            match b.asteroid {
                Some(Asteroid(s)) => {
                    if s > FRAGMENT_SCALE_THRESHOLD {
                        fragment = true;
                        scale = s;
                    }
                },
                None => {},
            }
            if fragment {
                let mut daughters = generate_daughters(
                    b.pos,
                    b.vel,
                    b.mass,
                    scale,
                    b.sturdiness,
                );
                proof {
                    assert(spawned@ + daughters@ =~= spawned_daughters(bodies@.take(i + 1)));
                }
                spawned.append(&mut daughters);
            } else {
                proof {
                    assert(spawned@ + Seq::<AsteroidInit>::empty() =~= spawned@);
                    assert(spawned@ =~= spawned_daughters(bodies@.take(i + 1)));
                }
            }
        }
        i += 1;
    }
    proof {
        assert(bodies@.take(n as int) =~= bodies@);
    }
    (kept, spawned)
}

/// Whether a body spawned at `spawned_at` has outlived `despawn_after` by
/// time `now` (all milli-scaled seconds).
pub fn is_expired(now: i64, spawned_at: &SpawnedAt, despawn_after: &DespawnAfter) -> (r: bool)
    requires
        -TIME_LIMIT <= now <= TIME_LIMIT,
        -TIME_LIMIT <= spawned_at.0 <= TIME_LIMIT,
        -TIME_LIMIT <= despawn_after.0 <= TIME_LIMIT,
    ensures
        r == (now - spawned_at.0 > despawn_after.0),
{
    now - spawned_at.0 > despawn_after.0
}

/// One body's despawn schedule: its handle, when it spawned, and its time to
/// live.
#[derive(Clone, Copy, PartialEq, Eq, Structural, Debug)]
pub struct DespawnSchedule {
    pub handle: u64,
    pub spawned_at: SpawnedAt,
    pub despawn_after: DespawnAfter,
}

/// The schedule entries within the timestamp bound.
pub open spec fn schedule_in_range(s: DespawnSchedule) -> bool {
    &&& -TIME_LIMIT <= s.spawned_at.0 <= TIME_LIMIT
    &&& -TIME_LIMIT <= s.despawn_after.0 <= TIME_LIMIT
}

/// Whether a schedule entry is expired at time `now`.
pub open spec fn expired(now: int, s: DespawnSchedule) -> bool {
    now - s.spawned_at.0 > s.despawn_after.0
}

/// The handles that are due for despawning at time `now`, in order.
pub open spec fn expired_handles_spec(now: int, schedule: Seq<DespawnSchedule>) -> Seq<u64>
    decreases schedule.len(),
{
    if schedule.len() == 0 {
        Seq::empty()
    } else {
        let rest = expired_handles_spec(now, schedule.drop_last());
        if expired(now, schedule.last()) {
            rest.push(schedule.last().handle)
        } else {
            rest
        }
    }
}

/// The time-based despawn pass: the handles of all bodies that have outlived
/// their time to live at time `now`.
pub fn despawn(now: i64, schedule: &Vec<DespawnSchedule>) -> (handles: Vec<u64>)
    requires
        -TIME_LIMIT <= now <= TIME_LIMIT,
        forall|i: int| 0 <= i < schedule@.len() ==> schedule_in_range(#[trigger] schedule@[i]),
    ensures
        handles@ == expired_handles_spec(now as int, schedule@),
{
    let n = schedule.len();
    let mut handles: Vec<u64> = Vec::new();
    let mut i: usize = 0;
    while i < n
        invariant
            n == schedule@.len(),
            i <= n,
            -TIME_LIMIT <= now <= TIME_LIMIT,
            forall|k: int| 0 <= k < schedule@.len() ==> schedule_in_range(#[trigger] schedule@[k]),
            handles@ == expired_handles_spec(now as int, schedule@.take(i as int)),
        decreases n - i,
    {
        let s = schedule[i];
        proof {
            assert(schedule@.take(i + 1).drop_last() =~= schedule@.take(i as int));
            assert(schedule@.take(i + 1).last() == schedule@[i as int]);
        }
        if is_expired(now, &s.spawned_at, &s.despawn_after) {
            handles.push(s.handle);
        }
        i += 1;
    }
    proof {
        assert(schedule@.take(n as int) =~= schedule@);
    }
    handles
}

} // verus!
