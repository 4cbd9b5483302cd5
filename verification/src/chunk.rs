//! Spatial chunk partitioning of the unbounded world, and the registry of
//! chunks that have already been populated.
//!
//! A chunk is a square, axis-aligned grid cell of side [`CHUNK_SIDE`]; its
//! identity is its bottom-left corner in milli-scaled world coordinates, a
//! multiple of the side length when the chunk was snapped from a point.

use vstd::prelude::*;

use crate::fixed::Vec2Fix;
use crate::rng::sample_uniform;

verus! {

use vstd::arithmetic::div_mod::{
    lemma_mod_division_less_than_divisor,
    lemma_mod_multiples_vanish,
};

/// Side length of a chunk: 600 world units, milli-scaled.
pub const CHUNK_SIDE: i64 = 600000;

/// Chunk coordinates and points handed to the chunk functions stay within
/// this bound, so that snapping and neighbour offsets cannot overflow.
pub const COORD_LIMIT: i64 = 1000000000000;

/// A multiple of `CHUNK_SIDE` larger than `COORD_LIMIT`, used to shift a
/// coordinate into the nonnegative range before taking its remainder.
const SNAP_SHIFT: i64 = 1200000000000;

/// The largest multiple of `CHUNK_SIDE` at or below `x` (`%` on `int` is
/// Euclidean, so the remainder is nonnegative for negative `x` too).
pub open spec fn floor_to_chunk(x: int) -> int {
    x - (x % (CHUNK_SIDE as int))
}

/// Snapping puts every point inside the cell it is snapped to: for every
/// coordinate `x`, the snapped corner is a multiple of the side length with
/// `corner <= x < corner + CHUNK_SIDE`.
pub proof fn lemma_floor_to_chunk(x: int)
    ensures
        floor_to_chunk(x) <= x < floor_to_chunk(x) + CHUNK_SIDE,
        floor_to_chunk(x) % (CHUNK_SIDE as int) == 0,
{
    lemma_mod_division_less_than_divisor(x, CHUNK_SIDE as int);
    lemma_mod_multiples_vanish(-(x / (CHUNK_SIDE as int)), x, CHUNK_SIDE as int);
    vstd::arithmetic::div_mod::lemma_fundamental_div_mod(x, CHUNK_SIDE as int);
}

/// Snapping and cell geometry agree: a point anywhere inside a snapped
/// cell snaps back to that very cell, so points near boundaries cannot
/// round-trip to the wrong chunk.
pub proof fn lemma_point_round_trip(corner: int, x: int)
    requires
        corner % (CHUNK_SIDE as int) == 0,
        corner <= x < corner + CHUNK_SIDE,
    ensures
        floor_to_chunk(x) == corner,
{
    let s = CHUNK_SIDE as int;
    lemma_mod_multiples_vanish(corner / s, x - corner, s);
    vstd::arithmetic::div_mod::lemma_fundamental_div_mod(corner, s);
    assert(s * (corner / s) + (x - corner) == x);
    vstd::arithmetic::div_mod::lemma_small_mod((x - corner) as nat, s as nat);
}

/// A grid cell, identified by the world coordinates of its bottom-left
/// corner.
#[derive(Clone, Copy, PartialEq, Eq, Structural, Hash, Debug)]
pub struct Chunk(pub i64, pub i64);

/// Chunk coordinates reachable by snapping an in-range point and stepping to
/// any of its surrounding cells; all chunk geometry is defined on them.
pub const CHUNK_RANGE: i64 = COORD_LIMIT + 3 * CHUNK_SIDE;

/// The chunk coordinates on which chunk geometry is defined.
pub open spec fn chunk_in_range(c: Chunk) -> bool {
    -CHUNK_RANGE <= c.0 <= CHUNK_RANGE && -CHUNK_RANGE <= c.1 <= CHUNK_RANGE
}

/// The chunk coordinates that snapping an in-range point can produce; one
/// cell of leeway below `COORD_LIMIT` on the negative side.
pub open spec fn chunk_from_point_range(c: Chunk) -> bool {
    &&& -(COORD_LIMIT + CHUNK_SIDE) <= c.0 <= COORD_LIMIT
    &&& -(COORD_LIMIT + CHUNK_SIDE) <= c.1 <= COORD_LIMIT
}

/// Offset, in cells, of the `k`-th neighbour coordinate: the surrounding
/// window spans two cells toward negative and one toward positive.
pub open spec fn neighbor_offset(k: int) -> int {
    if k == 0 {
        -2
    } else if k == 1 {
        -1
    } else if k == 2 {
        0
    } else {
        1
    }
}

/// The `i`-th element of the 4x4 surrounding window of `c`, row-major with
/// the x offset varying slowest.
pub open spec fn surrounding_chunk(c: Chunk, i: int) -> Chunk {
    Chunk(
        (c.0 + (CHUNK_SIDE as int) * neighbor_offset(i / 4)) as i64,
        (c.1 + (CHUNK_SIDE as int) * neighbor_offset(i % 4)) as i64,
    )
}

impl Chunk {
    pub fn new(x: i64, y: i64) -> (c: Chunk)
        ensures
            c == Chunk(x, y),
    {
        Chunk(x, y)
    }

    /// The bottom-left corner of the cell: the identity itself.
    pub fn bottom_left(&self) -> (v: Vec2Fix)
        ensures
            v.x == self.0,
            v.y == self.1,
    {
        Vec2Fix { x: self.0, y: self.1 }
    }

    /// The top-right corner: bottom-left plus `(CHUNK_SIDE, CHUNK_SIDE)`.
    pub fn top_right(&self) -> (v: Vec2Fix)
        requires
            chunk_in_range(*self),
        ensures
            v.x == self.0 + CHUNK_SIDE,
            v.y == self.1 + CHUNK_SIDE,
    {
        Vec2Fix { x: self.0 + CHUNK_SIDE, y: self.1 + CHUNK_SIDE }
    }

    /// A random point inside the cell, uniform on `[bottom_left, top_right)`
    /// along both axes.
    pub fn random_point_inside(&self) -> (p: Vec2Fix)
        requires
            chunk_in_range(*self),
        ensures
            self.0 <= p.x < self.0 + CHUNK_SIDE,
            self.1 <= p.y < self.1 + CHUNK_SIDE,
    {
        let x = sample_uniform(self.0, self.0 + CHUNK_SIDE);
        let y = sample_uniform(self.1, self.1 + CHUNK_SIDE);
        Vec2Fix { x, y }
    }

    /// The chunk whose cell contains `pt`: both coordinates snapped down to
    /// the nearest multiple of the side length, so that cells on the negative
    /// axes keep side `CHUNK_SIDE` and boundaries sit at exact multiples.
    pub fn containing_point(pt: &Vec2Fix) -> (c: Chunk)
        requires
            -COORD_LIMIT <= pt.x <= COORD_LIMIT,
            -COORD_LIMIT <= pt.y <= COORD_LIMIT,
        ensures
            c.0 == floor_to_chunk(pt.x as int),
            c.1 == floor_to_chunk(pt.y as int),
            c.0 <= pt.x < c.0 + CHUNK_SIDE,
            c.1 <= pt.y < c.1 + CHUNK_SIDE,
            c.0 % CHUNK_SIDE == 0,
            c.1 % CHUNK_SIDE == 0,
            chunk_from_point_range(c),
            chunk_in_range(c),
    {
        let x = Self::snap(pt.x);
        let y = Self::snap(pt.y);
        Chunk(x, y)
    }

    /// One coordinate of `containing_point`: the remainder is taken after a
    /// shift into the nonnegative range, which a multiple of the side length
    /// cannot change.
    fn snap(x: i64) -> (r: i64)
        requires
            -COORD_LIMIT <= x <= COORD_LIMIT,
        ensures
            r == floor_to_chunk(x as int),
            r <= x < r + CHUNK_SIDE,
            r % CHUNK_SIDE == 0,
            -(COORD_LIMIT + CHUNK_SIDE) <= r <= COORD_LIMIT,
    {
        let shifted = x + SNAP_SHIFT;
        let rem = shifted % CHUNK_SIDE;
        proof {
            lemma_mod_division_less_than_divisor(shifted as int, CHUNK_SIDE as int);
            lemma_mod_multiples_vanish(2000000, x as int, CHUNK_SIDE as int);
            assert((CHUNK_SIDE as int) * 2000000 == SNAP_SHIFT as int);
            assert((shifted as int) % (CHUNK_SIDE as int) == (x as int) % (CHUNK_SIDE as int));
            lemma_mod_division_less_than_divisor(x as int, CHUNK_SIDE as int);
            lemma_mod_multiples_vanish(
                -((x as int) / (CHUNK_SIDE as int)),
                x as int,
                CHUNK_SIDE as int,
            );
            vstd::arithmetic::div_mod::lemma_fundamental_div_mod(x as int, CHUNK_SIDE as int);
        }
        x - rem
    }

    /// The 16 cells of the 4x4 window around `self`: offsets of `{-2, -1, 0,
    /// +1}` cells on each axis independently, row-major with the x offset
    /// varying slowest.  The window is deliberately not centred: it reaches
    /// two cells toward negative and one toward positive.
    pub fn surrounding_chunks(&self) -> (chunks: Vec<Chunk>)
        requires
            chunk_from_point_range(*self),
        ensures
            chunks@.len() == 16,
            forall|i: int| 0 <= i < 16 ==> chunk_in_range(#[trigger] chunks@[i]),
            forall|i: int| 0 <= i < 16 ==> chunks@[i] == surrounding_chunk(*self, i),
            forall|i: int, j: int| 0 <= i < j < 16 ==> chunks@[i] != chunks@[j],
            chunks@[10] == *self,
    {
        let mut chunks: Vec<Chunk> = Vec::new();
        let mut i: usize = 0;
        while i < 4
        invariant
            chunk_from_point_range(*self),
            i <= 4,
            chunks@.len() == 4 * i,
            forall|k: int| 0 <= k < chunks@.len() ==> chunks@[k] == surrounding_chunk(*self, k),
        decreases 4 - i,
        {
            let dx = Self::offset_of(i);
            let mut j: usize = 0;
            while j < 4
            invariant
                chunk_from_point_range(*self),
                i < 4,
                j <= 4,
                dx == neighbor_offset(i as int),
                chunks@.len() == 4 * i + j,
                forall|k: int| 0 <= k < chunks@.len() ==> chunks@[k] == surrounding_chunk(
                    *self,
                    k,
                ),
            decreases 4 - j,
            {
                let dy = Self::offset_of(j);
                let c = Chunk(self.0 + dx * CHUNK_SIDE, self.1 + dy * CHUNK_SIDE);
                proof {
                    let k = (4 * i + j) as int;
                    vstd::arithmetic::div_mod::lemma_fundamental_div_mod_converse_div(
                        k,
                        4,
                        i as int,
                        j as int,
                    );
                    vstd::arithmetic::div_mod::lemma_fundamental_div_mod_converse_mod(
                        k,
                        4,
                        i as int,
                        j as int,
                    );
                    assert(c == surrounding_chunk(*self, k));
                }
                chunks.push(c);
                j += 1;
            }
            i += 1;
        }
        proof {
            assert forall|i: int| 0 <= i < 16 implies chunk_in_range(#[trigger] chunks@[i]) by {
                assert(chunks@[i] == surrounding_chunk(*self, i));
                assert(-2 <= neighbor_offset(i / 4) <= 1);
                assert(-2 <= neighbor_offset(i % 4) <= 1);
            }
            assert forall|i: int, j: int| 0 <= i < j < 16 implies chunks@[i] != chunks@[j] by {
                assert(chunks@[i] == surrounding_chunk(*self, i));
                assert(chunks@[j] == surrounding_chunk(*self, j));
            }
            assert(chunks@[10] == surrounding_chunk(*self, 10));
            assert(neighbor_offset(10int / 4) == 0);
            assert(neighbor_offset(10int % 4) == 0);
        }
        chunks
    }

    /// Executable form of [`neighbor_offset`].
    pub(crate) fn offset_of(k: usize) -> (r: i64)
        requires
            k < 4,
        ensures
            r == neighbor_offset(k as int),
    {
        if k == 0 {
            -2
        } else if k == 1 {
            -1
        } else if k == 2 {
            0
        } else {
            1
        }
    }
}

/// The set of chunks that have already been populated.  It only ever grows;
/// each chunk identity is held at most once.
pub struct SpawnedChunks {
    items: Vec<Chunk>,
}

impl SpawnedChunks {
    /// The chunks recorded so far, in insertion order.
    pub closed spec fn chunks(self) -> Seq<Chunk> {
        self.items@
    }

    /// Each chunk appears at most once.
    pub open spec fn wf(self) -> bool {
        forall|i: int, j: int|
            0 <= i < j < self.chunks().len() ==> self.chunks()[i] != self.chunks()[j]
    }

    pub open spec fn spec_contains(self, c: Chunk) -> bool {
        self.chunks().contains(c)
    }

    pub fn new() -> (s: SpawnedChunks)
        ensures
            s.wf(),
            s.chunks().len() == 0,
    {
        SpawnedChunks { items: Vec::new() }
    }

    pub fn len(&self) -> (n: usize)
        ensures
            n == self.chunks().len(),
    {
        self.items.len()
    }

    /// Whether chunk `c` has already been populated.
    pub fn contains(&self, c: &Chunk) -> (r: bool)
        ensures
            r == self.spec_contains(*c),
    {
        let n = self.items.len();
        let mut i: usize = 0;
        while i < n
            invariant
                n == self.items@.len(),
                i <= n,
                forall|k: int| 0 <= k < i ==> self.items@[k] != *c,
            decreases n - i,
        {
            if self.items[i].0 == c.0 && self.items[i].1 == c.1 {
                return true;
            }
            i += 1;
        }
        false
    }

    /// Record chunk `c` as populated.  A chunk already present is not added
    /// again, so the count grows by exactly one per newly seen chunk.
    pub fn insert(&mut self, c: Chunk)
        requires
            old(self).wf(),
        ensures
            final(self).wf(),
            old(self).spec_contains(c) ==> final(self).chunks() == old(self).chunks(),
            !old(self).spec_contains(c) ==> final(self).chunks() == old(self).chunks().push(c),
            final(self).spec_contains(c),
            forall|d: Chunk| old(self).spec_contains(d) ==> final(self).spec_contains(d),
            forall|d: Chunk| final(self).spec_contains(d) ==> d == c || old(self).spec_contains(d),
    {
        if !self.contains(&c) {
            self.items.push(c);
            proof {
                assert(self.chunks() == old(self).chunks().push(c));
                assert(self.chunks()[old(self).chunks().len() as int] == c);
                assert forall|d: Chunk| old(self).spec_contains(d) implies self.spec_contains(
                    d,
                ) by {
                    let k = choose|k: int|
                        0 <= k < old(self).chunks().len() && old(self).chunks()[k] == d;
                    assert(self.chunks()[k] == d);
                }
                assert forall|d: Chunk| self.spec_contains(d) implies d == c || old(
                    self,
                ).spec_contains(d) by {
                    let k = choose|k: int|
                        0 <= k < self.chunks().len() && self.chunks()[k] == d;
                    if k < self.chunks().len() - 1 {
                        assert(old(self).chunks()[k] == d);
                    }
                }
            }
        }
    }
}

impl Default for SpawnedChunks {
    /// An empty registry.
    fn default() -> (s: SpawnedChunks)
        ensures
            s.wf(),
            s.chunks().len() == 0,
    {
        SpawnedChunks::new()
    }
}

} // verus!
