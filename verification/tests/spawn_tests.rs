use asteroids_core::chunk::{Chunk, SpawnedChunks, CHUNK_SIDE};
use asteroids_core::fixed::Vec2Fix;
use asteroids_core::spawn::{spawn_asteroids, spawn_for_chunk, AsteroidDraw};

fn three_draws() -> Vec<AsteroidDraw> {
    vec![
        AsteroidDraw { vel: Vec2Fix { x: 40000, y: 30000 }, scale: 4200 },
        AsteroidDraw { vel: Vec2Fix { x: -90000, y: 0 }, scale: 3600 },
        AsteroidDraw { vel: Vec2Fix { x: 0, y: 99999 }, scale: 4800 },
    ]
}

fn sixteen_draw_lists() -> Vec<Vec<AsteroidDraw>> {
    let mut lists = Vec::new();
    for _ in 0..16 {
        lists.push(three_draws());
    }
    lists
}

#[test]
fn one_tick_populates_the_window() {
    // empty registry, player at the origin: one tick populates all 16
    // window chunks, each with one asteroid per draw, in bounds
    let mut reg = SpawnedChunks::new();
    let player = Some(Vec2Fix { x: 0, y: 0 });
    let result = spawn_asteroids(&player, &mut reg, &sixteen_draw_lists());
    assert_eq!(result.len(), 16);
    assert_eq!(reg.len(), 16);
    for cs in result.iter() {
        assert_eq!(cs.asteroids.len(), 3);
        for (a, d) in cs.asteroids.iter().zip(three_draws().iter()) {
            assert_eq!(a.vel, d.vel);
            assert_eq!(a.scale, d.scale);
            assert_eq!(a.sturdiness, 25000);
            assert!(cs.chunk.0 <= a.pos.x && a.pos.x < cs.chunk.0 + CHUNK_SIDE);
            assert!(cs.chunk.1 <= a.pos.y && a.pos.y < cs.chunk.1 + CHUNK_SIDE);
            assert!(-1000 <= a.angvel && a.angvel < 1000);
        }
    }
}

#[test]
fn second_tick_spawns_nothing_new() {
    // once a region is populated, a second pass over it never spawns into
    // the same chunks again
    let mut reg = SpawnedChunks::new();
    let player = Some(Vec2Fix { x: 0, y: 0 });
    let first = spawn_asteroids(&player, &mut reg, &sixteen_draw_lists());
    assert_eq!(first.len(), 16);
    let second = spawn_asteroids(&player, &mut reg, &sixteen_draw_lists());
    assert_eq!(second.len(), 0);
    assert_eq!(reg.len(), 16);
}

#[test]
fn moved_player_populates_only_new_chunks() {
    let mut reg = SpawnedChunks::new();
    let origin = Some(Vec2Fix { x: 0, y: 0 });
    spawn_asteroids(&origin, &mut reg, &sixteen_draw_lists());
    // one cell to the right: the window shifts by one column, so exactly
    // four chunks are new
    let moved = Some(Vec2Fix { x: CHUNK_SIDE, y: 0 });
    let result = spawn_asteroids(&moved, &mut reg, &sixteen_draw_lists());
    assert_eq!(result.len(), 4);
    for cs in result.iter() {
        assert_eq!(cs.chunk.0, 2 * CHUNK_SIDE);
    }
    assert_eq!(reg.len(), 20);
}

#[test]
fn no_player_no_spawn() {
    let mut reg = SpawnedChunks::new();
    let result = spawn_asteroids(&None, &mut reg, &sixteen_draw_lists());
    assert_eq!(result.len(), 0);
    assert_eq!(reg.len(), 0);
}

#[test]
fn populated_cell_holds_one_asteroid_per_draw() {
    let chunk = Chunk(-600000, 600000);
    let draws = three_draws();
    let inits = spawn_for_chunk(&chunk, &draws);
    assert_eq!(inits.len(), 3);
    for (a, d) in inits.iter().zip(draws.iter()) {
        assert_eq!(a.vel, d.vel);
        assert_eq!(a.scale, d.scale);
        assert_eq!(Chunk::containing_point(&a.pos), chunk);
    }
}

#[test]
fn empty_draw_list_populates_nothing() {
    let chunk = Chunk(0, 0);
    let inits = spawn_for_chunk(&chunk, &Vec::new());
    assert_eq!(inits.len(), 0);
}
