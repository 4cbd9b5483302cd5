use asteroids_core::chunk::{Chunk, SpawnedChunks, CHUNK_SIDE};
use asteroids_core::fixed::Vec2Fix;

#[test]
fn containing_point_at_origin() {
    let c = Chunk::containing_point(&Vec2Fix { x: 0, y: 0 });
    assert_eq!(c, Chunk::new(0, 0));
}

#[test]
fn containing_point_positive_interior() {
    // 250.5 world units -> cell starting at 0
    let c = Chunk::containing_point(&Vec2Fix { x: 250500, y: 599999 });
    assert_eq!(c, Chunk(0, 0));
}

#[test]
fn containing_point_positive_boundary() {
    // exactly 600 world units -> the next cell
    let c = Chunk::containing_point(&Vec2Fix { x: 600000, y: 600001 });
    assert_eq!(c, Chunk(600000, 600000));
}

#[test]
fn containing_point_negative_interior() {
    // -250 world units: negative-axis cells still have side 600, so the
    // cell starts at -600
    let c = Chunk::containing_point(&Vec2Fix { x: -250000, y: -1000 });
    assert_eq!(c, Chunk(-600000, -600000));
}

#[test]
fn containing_point_negative_boundary() {
    // exactly -600 world units starts its own cell
    let c = Chunk::containing_point(&Vec2Fix { x: -600000, y: -600001 });
    assert_eq!(c, Chunk(-600000, -1200000));
}

#[test]
fn point_between_corners() {
    // the testable bound: bottom_left <= p < top_right on both axes
    for &(x, y) in
        [(1i64, 7i64), (-1, -7), (599999, -599999), (750000, -750000), (0, -1)].iter()
    {
        let p = Vec2Fix { x, y };
        let c = Chunk::containing_point(&p);
        let bl = c.bottom_left();
        let tr = c.top_right();
        assert!(bl.x <= p.x && p.x < tr.x);
        assert!(bl.y <= p.y && p.y < tr.y);
        assert_eq!(tr.x - bl.x, CHUNK_SIDE);
        assert_eq!(tr.y - bl.y, CHUNK_SIDE);
    }
}

#[test]
fn surrounding_chunks_sixteen_distinct_with_self() {
    let c = Chunk(0, 0);
    let around = c.surrounding_chunks();
    assert_eq!(around.len(), 16);
    for i in 0..16 {
        for j in 0..16 {
            if i != j {
                assert_ne!(around[i], around[j]);
            }
        }
    }
    assert!(around.contains(&c));
    assert_eq!(around[10], c);
}

#[test]
fn surrounding_chunks_window_is_asymmetric() {
    // two cells toward negative, one toward positive
    let around = Chunk(0, 0).surrounding_chunks();
    assert!(around.contains(&Chunk(-1200000, -1200000)));
    assert!(around.contains(&Chunk(600000, 600000)));
    assert!(!around.contains(&Chunk(1200000, 0)));
    assert!(!around.contains(&Chunk(0, 1200000)));
}

#[test]
fn random_point_stays_inside_cell() {
    // the cell is far from the origin, so a draw handed back unchanged or
    // from the wrong range would land outside
    let c = Chunk(600000, -1200000);
    for _ in 0..50 {
        let p = c.random_point_inside();
        assert!(c.0 <= p.x && p.x < c.0 + CHUNK_SIDE);
        assert!(c.1 <= p.y && p.y < c.1 + CHUNK_SIDE);
        // round trip: the drawn point snaps back to the same cell
        assert_eq!(Chunk::containing_point(&p), c);
    }
}

#[test]
fn registry_grows_once_per_new_chunk() {
    let mut reg = SpawnedChunks::new();
    assert_eq!(reg.len(), 0);
    assert!(!reg.contains(&Chunk(0, 0)));
    reg.insert(Chunk(0, 0));
    assert_eq!(reg.len(), 1);
    assert!(reg.contains(&Chunk(0, 0)));
    // inserting the same chunk again does not grow the registry
    reg.insert(Chunk(0, 0));
    assert_eq!(reg.len(), 1);
    reg.insert(Chunk(600000, 0));
    assert_eq!(reg.len(), 2);
    assert!(reg.contains(&Chunk(600000, 0)));
    assert!(!reg.contains(&Chunk(0, 600000)));
}

#[test]
fn registry_default_is_empty() {
    let reg = SpawnedChunks::default();
    assert_eq!(reg.len(), 0);
}
