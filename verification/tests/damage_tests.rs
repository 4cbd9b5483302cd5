use asteroids_core::body::Body;
use asteroids_core::damage::{contact_damage, damage, ContactEvent};
use asteroids_core::fixed::Vec2Fix;
use asteroids_core::types::Asteroid;

fn body(handle: u64, vel: (i64, i64), mass: i64, sturdiness: i64) -> Body {
    Body {
        handle,
        pos: Vec2Fix { x: 0, y: 0 },
        vel: Vec2Fix { x: vel.0, y: vel.1 },
        mass,
        restitution: 900,
        sturdiness,
        asteroid: Some(Asteroid(4000)),
    }
}

#[test]
fn no_relative_motion_no_damage() {
    // equal masses, equal velocities: zero relative speed, zero damage
    let a = body(1, (30000, -40000), 10000, 25000);
    let b = body(2, (30000, -40000), 10000, 17000);
    let (sa, sb) = contact_damage(&a, &b);
    assert_eq!(sa, 25000);
    assert_eq!(sb, 17000);
}

#[test]
fn damage_is_deterministic() {
    let a = body(1, (50000, 0), 10000, 500);
    let b = body(2, (-50000, 0), 10000, 50000);
    let first = contact_damage(&a, &b);
    let second = contact_damage(&a, &b);
    assert_eq!(first, second);
}

#[test]
fn head_on_collision_exact_values() {
    // masses 10, velocities +-50 along x, restitution 0.9:
    // relv2 = 10000, e = 50000, loss = 0.19, rel_e = 9500;
    // A at sturdiness 0.5 drops to 0.5 - (1/500)*9500/0.5 = -37.5,
    // B at sturdiness 50 drops by (1/500)*9500/50 = 0.38
    let a = body(1, (50000, 0), 10000, 500);
    let b = body(2, (-50000, 0), 10000, 50000);
    let (sa, sb) = contact_damage(&a, &b);
    assert_eq!(sa, -37500);
    assert_eq!(sb, 49620);
}

#[test]
fn sturdiness_never_increases_in_collisions() {
    let speeds = [(0i64, 0i64), (10000, 0), (-50000, 20000), (100000, -100000)];
    for &va in speeds.iter() {
        for &vb in speeds.iter() {
            let a = body(1, va, 10000, 25000);
            let b = body(2, vb, 5000, 500);
            let (sa, sb) = contact_damage(&a, &b);
            assert!(sa <= a.sturdiness);
            assert!(sb <= b.sturdiness);
        }
    }
}

#[test]
fn contact_events_applied_in_order() {
    let mut bodies = vec![
        body(7, (50000, 0), 10000, 50000),
        body(8, (-50000, 0), 10000, 50000),
    ];
    let events = vec![ContactEvent { a: 7, b: 8 }, ContactEvent { a: 8, b: 7 }];
    damage(&mut bodies, &events);
    // first event: both drop from 50000 by 2*9500000/50000 = 380;
    // second event: both drop by 2*9500000/49620 = 382 (truncated)
    assert_eq!(bodies[0].sturdiness, 49620 - 382);
    assert_eq!(bodies[1].sturdiness, 49620 - 382);
}

#[test]
fn stale_handle_skips_event() {
    let mut bodies = vec![
        body(7, (50000, 0), 10000, 50000),
        body(8, (-50000, 0), 10000, 50000),
    ];
    // body 9 no longer exists: the event cannot be evaluated and is skipped
    let events = vec![ContactEvent { a: 7, b: 9 }, ContactEvent { a: 9, b: 8 }];
    damage(&mut bodies, &events);
    assert_eq!(bodies[0].sturdiness, 50000);
    assert_eq!(bodies[1].sturdiness, 50000);
}

#[test]
fn zero_sturdiness_side_left_unchanged() {
    let a = body(1, (50000, 0), 10000, 0);
    let b = body(2, (-50000, 0), 10000, 50000);
    let (sa, sb) = contact_damage(&a, &b);
    assert_eq!(sa, 0);
    assert_eq!(sb, 49620);
}
