//! Bullet launching.
//!
//! A bullet leaves the ship's nose along the ship's heading, at a fixed
//! muzzle speed on top of the ship's own velocity, and lives for a fixed
//! time; its destruction is time-based (see [`crate::lifecycle`]), not part
//! of the sturdiness model.

use vstd::prelude::*;

use crate::asteroid::vadd;
use crate::body::VEL_LIMIT;
use crate::chunk::COORD_LIMIT;
use crate::fixed::{lemma_div_trunc_bound, scale_by_micro, Vec2Fix, MICRO};
use crate::lifecycle::TIME_LIMIT;
use crate::types::{DespawnAfter, SpawnedAt};

verus! {

/// Muzzle speed of a bullet: 500 world units per second, milli-scaled.
pub const BULLET_SPEED: i64 = 500000;

/// Distance from the ship's centre to the muzzle: 20 world units,
/// milli-scaled.
pub const BULLET_NOSE_OFFSET: i64 = 20000;

/// Sturdiness a bullet starts with (1 world unit, milli-scaled).
pub const BULLET_STURDINESS: i64 = 1000;

/// A bullet's time to live: 3 seconds, milli-scaled.
pub const BULLET_TTL: i64 = 3000;

/// Everything the external engine needs to create one bullet body.
#[derive(Clone, Copy, PartialEq, Eq, Structural, Debug)]
pub struct BulletInit {
    /// Position, milli-scaled world coordinates.
    pub pos: Vec2Fix,
    /// Linear velocity, milli-scaled units per second.
    pub vel: Vec2Fix,
    /// Starting structural integrity, milli-scaled.
    pub sturdiness: i64,
    /// When the bullet was launched, milli-scaled seconds.
    pub spawned_at: SpawnedAt,
    /// How long it lives, milli-scaled seconds.
    pub despawn_after: DespawnAfter,
}

/// The square bullet polygon, milli-scaled world coordinates.
pub open spec fn bullet_polygon_spec() -> Seq<Vec2Fix> {
    seq![
        Vec2Fix { x: -1000i64, y: -1000i64 },
        Vec2Fix { x: -1000i64, y: 1000i64 },
        Vec2Fix { x: 1000i64, y: 1000i64 },
        Vec2Fix { x: 1000i64, y: -1000i64 },
    ]
}

/// The square bullet polygon.
pub fn bullet_polygon() -> (points: Vec<Vec2Fix>)
    ensures
        points@ == bullet_polygon_spec(),
{
    let mut points: Vec<Vec2Fix> = Vec::new();
    points.push(Vec2Fix { x: -1000, y: -1000 });
    points.push(Vec2Fix { x: -1000, y: 1000 });
    points.push(Vec2Fix { x: 1000, y: 1000 });
    points.push(Vec2Fix { x: 1000, y: -1000 });
    proof {
        assert(points@ =~= bullet_polygon_spec());
    }
    points
}

/// Launch a bullet from a ship at `pos` moving at `vel`, whose micro-scaled
/// unit heading is `heading` (the external engine reports the ship's
/// rotation; the heading is its unit vector).  The bullet starts one nose
/// offset along the heading, at the muzzle speed along the heading on top of
/// the ship's velocity, and expires after its time to live.
pub fn launch_from(pos: Vec2Fix, heading: Vec2Fix, vel: Vec2Fix, launch_time: i64) -> (b:
    BulletInit)
    requires
        -COORD_LIMIT <= pos.x <= COORD_LIMIT,
        -COORD_LIMIT <= pos.y <= COORD_LIMIT,
        -MICRO <= heading.x <= MICRO,
        -MICRO <= heading.y <= MICRO,
        -VEL_LIMIT <= vel.x <= VEL_LIMIT,
        -VEL_LIMIT <= vel.y <= VEL_LIMIT,
        -TIME_LIMIT <= launch_time <= TIME_LIMIT,
    ensures
        b.pos == vadd(pos, scale_by_micro(heading, BULLET_NOSE_OFFSET as int)),
        b.vel == vadd(vel, scale_by_micro(heading, BULLET_SPEED as int)),
        b.sturdiness == BULLET_STURDINESS,
        b.spawned_at.0 == launch_time,
        b.despawn_after.0 == BULLET_TTL,
{
    proof {
        assert(-20000000000 <= heading.x * BULLET_NOSE_OFFSET <= 20000000000 && -20000000000
            <= heading.y * BULLET_NOSE_OFFSET <= 20000000000 && -500000000000 <= heading.x
            * BULLET_SPEED <= 500000000000 && -500000000000 <= heading.y * BULLET_SPEED
            <= 500000000000) by (nonlinear_arith)
            requires
                -MICRO <= heading.x <= MICRO,
                -MICRO <= heading.y <= MICRO,
        ;
        lemma_div_trunc_bound(heading.x * BULLET_NOSE_OFFSET, 20000000000, MICRO as int);
        lemma_div_trunc_bound(heading.y * BULLET_NOSE_OFFSET, 20000000000, MICRO as int);
        lemma_div_trunc_bound(heading.x * BULLET_SPEED, 500000000000, MICRO as int);
        lemma_div_trunc_bound(heading.y * BULLET_SPEED, 500000000000, MICRO as int);
    }
    let nose = crate::fixed::scale_by_micro64(heading, BULLET_NOSE_OFFSET);
    let muzzle = crate::fixed::scale_by_micro64(heading, BULLET_SPEED);
    BulletInit {
        pos: pos.add(nose),
        vel: vel.add(muzzle),
        sturdiness: BULLET_STURDINESS,
        spawned_at: SpawnedAt(launch_time),
        despawn_after: DespawnAfter(BULLET_TTL),
    }
}

} // verus!
