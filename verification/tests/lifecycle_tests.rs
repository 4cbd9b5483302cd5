use asteroids_core::body::{total_ke, Body};
use asteroids_core::bullet::launch_from;
use asteroids_core::fixed::Vec2Fix;
use asteroids_core::lifecycle::{despawn, is_expired, DespawnSchedule};
use asteroids_core::types::{Controls, DespawnAfter, SpawnedAt};

#[test]
fn bullet_expires_after_its_ttl() {
    let spawned = SpawnedAt(10000);
    let ttl = DespawnAfter(3000);
    assert!(!is_expired(10000, &spawned, &ttl));
    assert!(!is_expired(13000, &spawned, &ttl));
    assert!(is_expired(13001, &spawned, &ttl));
}

#[test]
fn expired_handles_in_order() {
    let schedule = vec![
        DespawnSchedule { handle: 1, spawned_at: SpawnedAt(0), despawn_after: DespawnAfter(3000) },
        DespawnSchedule {
            handle: 2,
            spawned_at: SpawnedAt(4000),
            despawn_after: DespawnAfter(3000),
        },
        DespawnSchedule { handle: 3, spawned_at: SpawnedAt(500), despawn_after: DespawnAfter(3000) },
    ];
    let due = despawn(5000, &schedule);
    assert_eq!(due, vec![1, 3]);
}

#[test]
fn bullet_launches_from_the_nose() {
    // ship at (100, 200) moving (10, 0), heading straight up
    let b = launch_from(
        Vec2Fix { x: 100000, y: 200000 },
        Vec2Fix { x: 0, y: 1000000 },
        Vec2Fix { x: 10000, y: 0 },
        42000,
    );
    assert_eq!(b.pos, Vec2Fix { x: 100000, y: 220000 });
    assert_eq!(b.vel, Vec2Fix { x: 10000, y: 500000 });
    assert_eq!(b.sturdiness, 1000);
    assert_eq!(b.spawned_at, SpawnedAt(42000));
    assert_eq!(b.despawn_after, DespawnAfter(3000));
}

#[test]
fn bullet_inherits_ship_velocity() {
    // heading along -x: the muzzle speed subtracts from the ship's motion
    let b = launch_from(
        Vec2Fix { x: 0, y: 0 },
        Vec2Fix { x: -1000000, y: 0 },
        Vec2Fix { x: 200000, y: -3000 },
        0,
    );
    assert_eq!(b.pos, Vec2Fix { x: -20000, y: 0 });
    assert_eq!(b.vel, Vec2Fix { x: -300000, y: -3000 });
}

#[test]
fn total_kinetic_energy_adds_up() {
    // 0.5*10*100^2 + 0.5*2*50^2 = 50000 + 2500
    let bodies = vec![
        Body {
            handle: 1,
            pos: Vec2Fix { x: 0, y: 0 },
            vel: Vec2Fix { x: 100000, y: 0 },
            mass: 10000,
            restitution: 900,
            sturdiness: 25000,
            asteroid: None,
        },
        Body {
            handle: 2,
            pos: Vec2Fix { x: 0, y: 0 },
            vel: Vec2Fix { x: 0, y: -50000 },
            mass: 2000,
            restitution: 900,
            sturdiness: 25000,
            asteroid: None,
        },
    ];
    assert_eq!(total_ke(&bodies), 50000000 + 2500000);
}

#[test]
fn controls_start_released() {
    let c = Controls::default();
    assert!(!c.thrust);
    assert!(!c.shoot);
    assert!(c.rotate.is_none());
    assert_eq!(c.last_shot, 0);
}
