//! The spawn driver: populating the chunks around the player.
//!
//! Each tick the driver snaps the player's position to its chunk, walks the
//! 16 surrounding cells, and populates every cell the registry has not seen,
//! recording it so that no chunk is ever populated twice.  How many asteroids
//! a cell gets, their scales and their velocities are drawn outside the core
//! (normally distributed counts and scales, polar velocities) and handed in
//! as one list of draws per window cell; positions inside the cell and
//! angular velocities are drawn here, uniformly.

use vstd::prelude::*;

use crate::asteroid::{AsteroidInit, INITIAL_STURDINESS};
use crate::body::{SCALE_LIMIT, VEL_LIMIT};
use crate::chunk::{
    chunk_from_point_range, chunk_in_range, floor_to_chunk, surrounding_chunk, Chunk,
    SpawnedChunks, CHUNK_SIDE, COORD_LIMIT,
};
use crate::fixed::Vec2Fix;
use crate::rng::sample_uniform;

verus! {

/// Largest milli-scaled angular velocity of a spawned asteroid (1 radian per
/// second); draws are uniform on `[-ANGVEL_LIMIT, ANGVEL_LIMIT)`.
pub const ANGVEL_LIMIT: i64 = 1000;

/// The values drawn outside the core for one asteroid to be spawned: its
/// velocity (from a uniform speed and heading) and its linear scale (from a
/// normal distribution around 4).
#[derive(Clone, Copy, PartialEq, Eq, Structural, Debug)]
pub struct AsteroidDraw {
    pub vel: Vec2Fix,
    pub scale: i64,
}

/// The ranges the draws are trusted to stay in.
pub open spec fn draw_in_range(d: AsteroidDraw) -> bool {
    &&& -VEL_LIMIT <= d.vel.x <= VEL_LIMIT
    &&& -VEL_LIMIT <= d.vel.y <= VEL_LIMIT
    &&& 0 <= d.scale <= SCALE_LIMIT
}

/// The chunk containing a point.
pub open spec fn point_chunk(p: Vec2Fix) -> Chunk {
    Chunk(floor_to_chunk(p.x as int) as i64, floor_to_chunk(p.y as int) as i64)
}

/// The 16 cells the driver considers around the player.
pub open spec fn spawn_window(p: Vec2Fix) -> Seq<Chunk> {
    Seq::new(16, |i: int| surrounding_chunk(point_chunk(p), i))
}

/// The window cells that are not yet in the registry, in window order: the
/// cells one driver tick populates.
pub open spec fn populated_chunks(window: Seq<Chunk>, registry: Seq<Chunk>) -> Seq<Chunk>
    decreases window.len(),
{
    if window.len() == 0 {
        Seq::empty()
    } else {
        let rest = populated_chunks(window.drop_last(), registry);
        if !registry.contains(window.last()) {
            rest.push(window.last())
        } else {
            rest
        }
    }
}

/// The indices of the window cells one driver tick populates.
pub open spec fn populated_indices(window: Seq<Chunk>, registry: Seq<Chunk>) -> Seq<int>
    decreases window.len(),
{
    if window.len() == 0 {
        Seq::empty()
    } else {
        let rest = populated_indices(window.drop_last(), registry);
        if !registry.contains(window.last()) {
            rest.push(window.len() - 1)
        } else {
            rest
        }
    }
}

/// A chunk already in the registry is never populated again, whatever the
/// window: a second pass over the same region skips it.
pub proof fn lemma_no_repopulation(window: Seq<Chunk>, registry: Seq<Chunk>, c: Chunk)
    requires
        registry.contains(c),
    ensures
        !populated_chunks(window, registry).contains(c),
    decreases window.len(),
{
    if window.len() > 0 {
        lemma_no_repopulation(window.drop_last(), registry, c);
        let rest = populated_chunks(window.drop_last(), registry);
        if !registry.contains(window.last()) {
            assert(window.last() != c);
            assert forall|i: int|
                0 <= i < rest.push(window.last()).len() implies rest.push(window.last())[i]
                != c by {
                if i < rest.len() {
                    assert(!rest.contains(c));
                }
            }
        }
    }
}

/// A chunk populated by one tick is never populated by a later tick: the
/// first tick records it, and a recorded chunk is skipped for good.
pub proof fn lemma_no_double_population(
    window1: Seq<Chunk>,
    window2: Seq<Chunk>,
    registry: Seq<Chunk>,
    c: Chunk,
)
    requires
        populated_chunks(window1, registry).contains(c),
    ensures
        !populated_chunks(
            window2,
            registry + populated_chunks(window1, registry),
        ).contains(c),
{
    let first = populated_chunks(window1, registry);
    let i = choose|i: int| 0 <= i < first.len() && first[i] == c;
    assert((registry + first)[registry.len() + i] == c);
    lemma_no_repopulation(window2, registry + first, c);
}

/// Everything one tick populates comes from the window and was new to the
/// registry.
pub proof fn lemma_populated_chunks_new(window: Seq<Chunk>, registry: Seq<Chunk>)
    ensures
        forall|c: Chunk|
            #[trigger] populated_chunks(window, registry).contains(c) ==> window.contains(c)
                && !registry.contains(c),
        populated_chunks(window, registry).len() == populated_indices(window, registry).len(),
        forall|k: int|
            0 <= k < populated_indices(window, registry).len() ==> {
                let j = #[trigger] populated_indices(window, registry)[k];
                &&& 0 <= j < window.len()
                &&& populated_chunks(window, registry)[k] == window[j]
                &&& !registry.contains(window[j])
            },
    decreases window.len(),
{
    if window.len() > 0 {
        lemma_populated_chunks_new(window.drop_last(), registry);
        assert forall|c: Chunk|
            #[trigger] populated_chunks(window, registry).contains(c) implies window.contains(c)
            && !registry.contains(c) by {
            let rest = populated_chunks(window.drop_last(), registry);
            let i = choose|i: int|
                0 <= i < populated_chunks(window, registry).len() && populated_chunks(
                    window,
                    registry,
                )[i] == c;
            if !registry.contains(window.last()) && i == rest.len() {
                assert(c == window.last());
                assert(window[window.len() - 1] == c);
            } else {
                assert(rest[i] == c);
                assert(rest.contains(c));
                let j = choose|j: int|
                    0 <= j < window.drop_last().len() && window.drop_last()[j] == c;
                assert(window[j] == c);
            }
        }
    }
}

/// What one populated cell holds: one asteroid per draw, with the drawn
/// velocity and scale, the spawn sturdiness, a position inside the cell and
/// an angular velocity within the limit.
pub open spec fn populated_asteroids(
    inits: Seq<AsteroidInit>,
    chunk: Chunk,
    draws: Seq<AsteroidDraw>,
) -> bool {
    &&& inits.len() == draws.len()
    &&& forall|i: int|
        0 <= i < inits.len() ==> {
            let a = #[trigger] inits[i];
            &&& a.vel == draws[i].vel
            &&& a.scale == draws[i].scale
            &&& a.sturdiness == INITIAL_STURDINESS
            &&& a.angvel >= -ANGVEL_LIMIT
            &&& a.angvel < ANGVEL_LIMIT
            &&& chunk.0 <= a.pos.x < chunk.0 + CHUNK_SIDE
            &&& chunk.1 <= a.pos.y < chunk.1 + CHUNK_SIDE
        }
}

/// Populate one cell: one asteroid per draw, placed uniformly inside the
/// cell with a uniform angular velocity.
pub fn spawn_for_chunk(chunk: &Chunk, draws: &Vec<AsteroidDraw>) -> (inits: Vec<AsteroidInit>)
    requires
        chunk_in_range(*chunk),
        forall|i: int| 0 <= i < draws@.len() ==> draw_in_range(#[trigger] draws@[i]),
    ensures
        populated_asteroids(inits@, *chunk, draws@),
{
    let n = draws.len();
    let mut inits: Vec<AsteroidInit> = Vec::new();
    let mut i: usize = 0;
    while i < n
        invariant
            n == draws@.len(),
            i <= n,
            chunk_in_range(*chunk),
            forall|k: int| 0 <= k < draws@.len() ==> draw_in_range(#[trigger] draws@[k]),
            inits@.len() == i,
            populated_asteroids(inits@, *chunk, draws@.take(i as int)),
        decreases n - i,
    {
        let pos = chunk.random_point_inside();
        let angvel = sample_uniform(-ANGVEL_LIMIT, ANGVEL_LIMIT);
        let d = draws[i];
        inits.push(
            AsteroidInit {
                pos,
                vel: d.vel,
                angvel,
                scale: d.scale,
                sturdiness: INITIAL_STURDINESS,
            },
        );
        i += 1;
    }
    inits
}

/// One populated cell of a driver tick.
pub struct ChunkSpawn {
    pub chunk: Chunk,
    pub asteroids: Vec<AsteroidInit>,
}

/// One driver tick.  With no player present the driver does nothing.
/// Otherwise it populates every window cell around the player that the
/// registry has not seen, with the draws handed in for that cell, and
/// records it: the registry grows by exactly the populated cells, so the
/// next tick over the same region populates none of them again.
pub fn spawn_asteroids(
    player: &Option<Vec2Fix>,
    registry: &mut SpawnedChunks,
    chunk_draws: &Vec<Vec<AsteroidDraw>>,
) -> (result: Vec<ChunkSpawn>)
    requires
        old(registry).wf(),
        match *player {
            Some(p) => -COORD_LIMIT <= p.x <= COORD_LIMIT && -COORD_LIMIT <= p.y <= COORD_LIMIT,
            None => true,
        },
        chunk_draws@.len() == 16,
        forall|j: int, i: int|
            0 <= j < 16 && 0 <= i < chunk_draws@[j]@.len() ==> draw_in_range(
                #[trigger] chunk_draws@[j]@[i],
            ),
    ensures
        final(registry).wf(),
        match *player {
            Some(p) => {
                let window = spawn_window(p);
                let new_chunks = populated_chunks(window, old(registry).chunks());
                let indices = populated_indices(window, old(registry).chunks());
                &&& final(registry).chunks() == old(registry).chunks() + new_chunks
                &&& result@.len() == indices.len()
                &&& forall|k: int|
                    0 <= k < result@.len() ==> {
                        let j = indices[k];
                        &&& (#[trigger] result@[k]).chunk == window[j]
                        &&& !old(registry).spec_contains(result@[k].chunk)
                        &&& populated_asteroids(
                            result@[k].asteroids@,
                            window[j],
                            chunk_draws@[j]@,
                        )
                    }
            },
            None => final(registry).chunks() == old(registry).chunks() && result@.len() == 0,
        },
{
    let mut result: Vec<ChunkSpawn> = Vec::new();
    match player {
        None => result,
        Some(p) => {
            let center = Chunk::containing_point(p);
            let window = center.surrounding_chunks();
            proof {
                assert(center == point_chunk(*p));
                assert(window@ =~= spawn_window(*p));
            }
            let ghost window_spec = spawn_window(*p);
            let ghost reg0 = registry.chunks();
            let mut j: usize = 0;
            while j < 16
                invariant
                    registry.wf(),
                    window@ == window_spec,
                    window@.len() == 16,
                    reg0 == old(registry).chunks(),
                    chunk_draws@.len() == 16,
                    forall|jj: int, i: int|
                        0 <= jj < 16 && 0 <= i < chunk_draws@[jj]@.len() ==> draw_in_range(
                            #[trigger] chunk_draws@[jj]@[i],
                        ),
                    forall|i: int| 0 <= i < 16 ==> chunk_in_range(#[trigger] window@[i]),
                    forall|a: int, b: int| 0 <= a < b < 16 ==> window@[a] != window@[b],
                    j <= 16,
                    registry.chunks() == reg0 + populated_chunks(window@.take(j as int), reg0),
                    result@.len() == populated_indices(window@.take(j as int), reg0).len(),
                    forall|k: int|
                        0 <= k < result@.len() ==> {
                            let jj = populated_indices(window@.take(j as int), reg0)[k];
                            &&& 0 <= jj < j
                            &&& (#[trigger] result@[k]).chunk == window@[jj]
                            &&& !reg0.contains(window@[jj])
                            &&& populated_asteroids(
                                result@[k].asteroids@,
                                window@[jj],
                                chunk_draws@[jj]@,
                            )
                        },
                decreases 16 - j,
            {
                let c = window[j];
                proof {
                    lemma_populated_chunks_new(window@.take(j as int), reg0);
                    assert(window@.take(j + 1).drop_last() =~= window@.take(j as int));
                    assert(window@.take(j + 1).last() == window@[j as int]);
                }
                let already = registry.contains(&c);
                proof {
                    let prefix = populated_chunks(window@.take(j as int), reg0);
                    if already {
                        // the chunk is either in the registry the tick
                        // started with or was populated earlier this tick;
                        // the latter cannot be, the window cells are distinct
                        if !reg0.contains(c) {
                            let idx = choose|idx: int|
                                0 <= idx < registry.chunks().len() && registry.chunks()[idx] == c;
                            if idx < reg0.len() {
                                assert(reg0[idx] == c);
                                assert(reg0.contains(c));
                            } else {
                                assert(prefix[idx - reg0.len()] == c);
                                assert(prefix.contains(c));
                                assert(window@.take(j as int).contains(c));
                                let w = choose|w: int|
                                    0 <= w < j && window@.take(j as int)[w] == c;
                                assert(window@[w] == window@[j as int]);
                            }
                        }
                    } else {
                        if reg0.contains(c) {
                            let idx = choose|idx: int| 0 <= idx < reg0.len() && reg0[idx] == c;
                            assert(registry.chunks()[idx] == c);
                        }
                    }
                }
                if !already {
                    let inits = spawn_for_chunk(&c, &chunk_draws[j]);
                    result.push(ChunkSpawn { chunk: c, asteroids: inits });
                    registry.insert(c);
                    proof {
                        assert(registry.chunks() =~= reg0 + populated_chunks(
                            window@.take(j + 1),
                            reg0,
                        ));
                    }
                } else {
                    proof {
                        assert(registry.chunks() =~= reg0 + populated_chunks(
                            window@.take(j + 1),
                            reg0,
                        ));
                    }
                }
                j += 1;
            }
            proof {
                assert(window@.take(16int) =~= window@);
            }
            result
        },
    }
}

} // verus!
