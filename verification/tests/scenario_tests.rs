use asteroids_core::body::Body;
use asteroids_core::damage::{damage, ContactEvent};
use asteroids_core::fixed::Vec2Fix;
use asteroids_core::lifecycle::health;
use asteroids_core::types::Asteroid;

fn asteroid(handle: u64, vel: (i64, i64), sturdiness: i64, scale: i64) -> Body {
    Body {
        handle,
        pos: Vec2Fix { x: 0, y: 0 },
        vel: Vec2Fix { x: vel.0, y: vel.1 },
        mass: 10000,
        restitution: 900,
        sturdiness,
        asteroid: Some(Asteroid(scale)),
    }
}

#[test]
fn collision_then_destruction() {
    // tick n: two mass-10 asteroids meet head-on at +-50; the weak one
    // (sturdiness 0.5) drops to -37.5.  tick n+1: it is reaped and, being
    // scale 4 (above the threshold), fragments into three daughters that
    // are themselves below the threshold.
    let mut bodies = vec![
        asteroid(1, (50000, 0), 500, 4000),
        asteroid(2, (-50000, 0), 50000, 4000),
    ];
    let events = vec![ContactEvent { a: 1, b: 2 }];
    damage(&mut bodies, &events);
    assert_eq!(bodies[0].sturdiness, -37500);
    assert_eq!(bodies[1].sturdiness, 49620);

    let (kept, daughters) = health(&bodies);
    assert_eq!(kept.len(), 1);
    assert_eq!(kept[0].handle, 2);
    assert_eq!(daughters.len(), 3);
    for d in daughters.iter() {
        assert_eq!(d.scale, 1776);
        assert!(d.scale < 2000);
        assert_eq!(d.sturdiness, 25000);
    }
}

#[test]
fn damage_commits_before_destruction() {
    // a body destroyed by a contact this tick fragments this very tick,
    // because the damage pass runs and commits before the destruction pass
    let mut bodies = vec![
        asteroid(1, (50000, 0), 500, 4500),
        asteroid(2, (-50000, 0), 50000, 4500),
    ];
    damage(&mut bodies, &vec![ContactEvent { a: 1, b: 2 }]);
    let (kept, daughters) = health(&bodies);
    assert_eq!(kept.len(), 1);
    assert_eq!(daughters.len(), 3);
    assert_eq!(daughters[1].scale, 2250);
}
