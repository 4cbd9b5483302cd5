//! Component tags and small value components attached to bodies.
//!
//! The external engine keeps these on its entities; the core only reads and
//! writes their plain values.  Times are milli-scaled seconds, scalars are
//! milli-scaled world quantities.

use vstd::prelude::*;

verus! {

/// Tag of a bullet body.
pub struct Bullet;

/// Tag of an asteroid body, carrying its milli-scaled linear scale.
#[derive(Clone, Copy, PartialEq, Eq, Structural, Debug)]
pub struct Asteroid(pub i64);

/// Tag of the player's ship.
pub struct Player;

/// Tag of the score text element.
pub struct ScoreText();

/// The running score.
#[derive(Debug)]
pub struct Score(pub i32);

/// Tag of a thruster visual attached to a ship.
pub struct Thruster;

/// Which way the ship is being turned.
#[allow(non_camel_case_types)]
pub enum RotationDir {
    LEFT,
    RIGHT,
}

/// Structural integrity of a body, milli-scaled; destruction at or below
/// zero.
#[derive(Clone, Copy, PartialEq, Eq, Structural, Debug)]
pub struct Sturdiness(pub i64);

/// Milli-scaled second at which a body was spawned.
#[derive(Clone, Copy, PartialEq, Eq, Structural, Debug)]
pub struct SpawnedAt(pub i64);

/// Milli-scaled seconds after which a body is despawned.
#[derive(Clone, Copy, PartialEq, Eq, Structural, Debug)]
pub struct DespawnAfter(pub i64);

/// Milli-scaled second at which asteroids were last spawned.
#[derive(Clone, Copy, PartialEq, Eq, Structural, Debug)]
pub struct LastAsteroidSpawnTime(pub i64);

/// Remaining fuel, milli-scaled.
#[derive(Clone, Copy, PartialEq, Eq, Structural, Debug)]
pub struct Fuel(pub i64);

/// Engine strength: linear thrust and turn rate, milli-scaled.
#[derive(Clone, Copy, PartialEq, Eq, Structural, Debug)]
pub struct Engines {
    pub thrust: i64,
    pub spin: i64,
}

/// The player's current control inputs.
pub struct Controls {
    pub thrust: bool,
    pub rotate: Option<RotationDir>,
    pub shoot: bool,
    /// Milli-scaled seconds since the last shot.
    pub last_shot: i64,
}

impl Default for Controls {
    /// Everything released, last shot long done.
    fn default() -> (c: Controls)
        ensures
            !c.thrust,
            c.rotate is None,
            !c.shoot,
            c.last_shot == 0,
    {
        Controls { thrust: false, rotate: None, shoot: false, last_shot: 0 }
    }
}

impl Default for Score {
    fn default() -> (s: Score)
        ensures
            s.0 == 0,
    {
        Score(0)
    }
}

impl Default for LastAsteroidSpawnTime {
    fn default() -> (t: LastAsteroidSpawnTime)
        ensures
            t.0 == 0,
    {
        LastAsteroidSpawnTime(0)
    }
}

} // verus!
