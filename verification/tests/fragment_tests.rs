use asteroids_core::asteroid::{
    asteroid_polygon, daughter_mass64, generate_daughters, AsteroidInit, INITIAL_STURDINESS,
};
use asteroids_core::body::Body;
use asteroids_core::fixed::Vec2Fix;
use asteroids_core::lifecycle::health;
use asteroids_core::types::Asteroid;

fn destroyed_asteroid(handle: u64, scale: i64, sturdiness: i64) -> Body {
    Body {
        handle,
        pos: Vec2Fix { x: 0, y: 0 },
        vel: Vec2Fix { x: 100000, y: 0 },
        mass: 10000,
        restitution: 900,
        sturdiness,
        asteroid: Some(Asteroid(scale)),
    }
}

#[test]
fn three_daughters_above_threshold() {
    // a destroyed scale-4.5 asteroid always yields exactly 3 daughters of
    // scale (4.5/3)^2 = 2.25
    let bodies = vec![destroyed_asteroid(1, 4500, -37500)];
    let (kept, spawned) = health(&bodies);
    assert_eq!(kept.len(), 0);
    assert_eq!(spawned.len(), 3);
    for d in spawned.iter() {
        assert_eq!(d.scale, 2250);
        assert_eq!(d.sturdiness, INITIAL_STURDINESS);
        assert_eq!(d.angvel, 0);
    }
}

#[test]
fn no_daughters_below_threshold() {
    // a destroyed scale-1.0 asteroid yields no daughters
    let bodies = vec![destroyed_asteroid(1, 1000, -5)];
    let (kept, spawned) = health(&bodies);
    assert_eq!(kept.len(), 0);
    assert_eq!(spawned.len(), 0);
}

#[test]
fn no_daughters_from_destroyed_bullet() {
    let mut b = destroyed_asteroid(1, 4500, 0);
    b.asteroid = None;
    let (kept, spawned) = health(&vec![b]);
    assert_eq!(kept.len(), 0);
    assert_eq!(spawned.len(), 0);
}

#[test]
fn survivors_keep_their_order() {
    let alive_a = Body { sturdiness: 100, ..destroyed_asteroid(1, 1000, 0) };
    let dead = destroyed_asteroid(2, 1000, -3);
    let alive_b = Body { sturdiness: 7, ..destroyed_asteroid(3, 1000, 0) };
    let (kept, spawned) = health(&vec![alive_a, dead, alive_b]);
    assert_eq!(spawned.len(), 0);
    assert_eq!(kept.len(), 2);
    assert_eq!(kept[0].handle, 1);
    assert_eq!(kept[1].handle, 3);
}

#[test]
fn daughters_of_scale_four_never_fragment_again() {
    // (4.0/3)^2 is about 1.78, below the 2.0 threshold
    let ds = generate_daughters(
        Vec2Fix { x: 0, y: 0 },
        Vec2Fix { x: 100000, y: 0 },
        10000,
        4000,
        -37500,
    );
    assert_eq!(ds.len(), 3);
    for d in ds.iter() {
        assert_eq!(d.scale, 1776);
        assert!(d.scale < 2000);
    }
}

#[test]
fn fragmentation_exact_values() {
    // parent: at the origin, moving +x at 100, mass 10, scale 4.5,
    // destroyed at sturdiness -37.5.
    // KE = 0.5*10*100^2 = 50000; PE = 37.5^2*500 = 703125;
    // total = (KE+PE)/10 = 75312.5; per daughter 25104.166; mass 10/3;
    // speed = sqrt(2*E/m) ~ 122.735
    let ds = generate_daughters(
        Vec2Fix { x: 0, y: 0 },
        Vec2Fix { x: 100000, y: 0 },
        10000,
        4500,
        -37500,
    );
    assert_eq!(ds.len(), 3);
    let expect = [
        AsteroidInit {
            pos: Vec2Fix { x: 0, y: 22500 },
            vel: Vec2Fix { x: 120288, y: -24383 },
            angvel: 0,
            scale: 2250,
            sturdiness: 25000,
        },
        AsteroidInit {
            pos: Vec2Fix { x: 0, y: 0 },
            vel: Vec2Fix { x: 122735, y: 0 },
            angvel: 0,
            scale: 2250,
            sturdiness: 25000,
        },
        AsteroidInit {
            pos: Vec2Fix { x: 0, y: -22500 },
            vel: Vec2Fix { x: 120288, y: 24383 },
            angvel: 0,
            scale: 2250,
            sturdiness: 25000,
        },
    ];
    assert_eq!(ds[0], expect[0]);
    assert_eq!(ds[1], expect[1]);
    assert_eq!(ds[2], expect[2]);
}

#[test]
fn zero_velocity_parent_uses_fallback_heading() {
    // normalising the zero vector is undefined; the fallback heading is +x,
    // so the middle daughter moves along +x and the side daughters sit on
    // the y axis
    let ds = generate_daughters(
        Vec2Fix { x: 5000, y: -5000 },
        Vec2Fix { x: 0, y: 0 },
        10000,
        4500,
        -30000,
    );
    assert_eq!(ds.len(), 3);
    assert_eq!(ds[1].vel.y, 0);
    assert!(ds[1].vel.x > 0);
    assert_eq!(ds[0].pos, Vec2Fix { x: 5000, y: 17500 });
    assert_eq!(ds[2].pos, Vec2Fix { x: 5000, y: -27500 });
}

#[test]
fn zero_mass_parent_daughters_stand_still() {
    let ds = generate_daughters(
        Vec2Fix { x: 0, y: 0 },
        Vec2Fix { x: 100000, y: 0 },
        0,
        4500,
        -30000,
    );
    assert_eq!(ds.len(), 3);
    for d in ds.iter() {
        assert_eq!(d.vel, Vec2Fix { x: 0, y: 0 });
    }
}

#[test]
fn daughter_masses_are_thirds() {
    // each daughter carries m/3; the thirds sum back to m up to the
    // remainder
    assert_eq!(daughter_mass64(10000), 3333);
    assert_eq!(daughter_mass64(9000), 3000);
    assert!(3 * daughter_mass64(10000) <= 10000);
    assert!(10000 < 3 * daughter_mass64(10000) + 3);
}

#[test]
fn polygon_scales_with_the_asteroid() {
    let p = asteroid_polygon(4000);
    assert_eq!(p.len(), 7);
    assert_eq!(p[0], Vec2Fix { x: 0, y: 0 });
    assert_eq!(p[1], Vec2Fix { x: -4000, y: -12000 });
    assert_eq!(p[2], Vec2Fix { x: -20000, y: -8000 });
    assert_eq!(p[3], Vec2Fix { x: -20000, y: 4000 });
    assert_eq!(p[4], Vec2Fix { x: -4000, y: 16000 });
    assert_eq!(p[5], Vec2Fix { x: 12000, y: 16000 });
    assert_eq!(p[6], Vec2Fix { x: 12000, y: -4000 });
}
