//! World, chunk and local coordinates.
//!
//! A world coordinate is an integer triple `(x, y, layer)`. Chunk coordinates
//! come from flooring world coordinates by `CHUNK_SIZE`; local coordinates are
//! the non-negative Euclidean remainder, so negative world coordinates wrap
//! into the previous chunk rather than truncating toward zero.

use vstd::prelude::*;

verus! {

/// Side length of a chunk, in tiles.
pub const CHUNK_SIZE: i32 = 32;

/// Chunk coordinate that owns a world coordinate: floor division by `CHUNK_SIZE`.
pub open spec fn spec_chunk_coord(w: int) -> int {
    w / (CHUNK_SIZE as int)
}

/// Local coordinate of a world coordinate inside its chunk: Euclidean remainder.
pub open spec fn spec_local_coord(w: int) -> int {
    w % (CHUNK_SIZE as int)
}

/// Floor division of a world coordinate by `CHUNK_SIZE`.
pub fn chunk_coord(w: i32) -> (r: i32)
    ensures
        r == spec_chunk_coord(w as int),
        -67108864 <= r <= 67108863,
{
    proof {
        vstd::arithmetic::div_mod::lemma_div_is_ordered(
            i32::MIN as int,
            w as int,
            CHUNK_SIZE as int,
        );
        vstd::arithmetic::div_mod::lemma_div_is_ordered(
            w as int,
            i32::MAX as int,
            CHUNK_SIZE as int,
        );
        assert((i32::MIN as int) / (CHUNK_SIZE as int) == -67108864);
        assert((i32::MAX as int) / (CHUNK_SIZE as int) == 67108863);
    }
    match w.checked_div_euclid(CHUNK_SIZE) {
        Some(q) => q,
        None => 0,
    }
}

/// Euclidean remainder of a world coordinate by `CHUNK_SIZE`; always in `[0, CHUNK_SIZE)`.
pub fn local_coord(w: i32) -> (r: i32)
    ensures
        r == spec_local_coord(w as int),
        0 <= r < CHUNK_SIZE,
{
    match w.checked_rem_euclid(CHUNK_SIZE) {
        Some(m) => m,
        None => 0,
    }
}

/// The four cardinal directions an entity can face.
#[derive(Clone, Copy, PartialEq, Eq, Structural, Debug)]
pub enum Direction {
    North,
    South,
    East,
    West,
}

/// Saturating i32 addition, as a mathematical function.
pub open spec fn sat_add_i32(a: int, b: int) -> int {
    if a + b > i32::MAX {
        i32::MAX as int
    } else if a + b < i32::MIN {
        i32::MIN as int
    } else {
        a + b
    }
}

impl Direction {
    /// The unit offset of the direction: north is negative y, west negative x.
    pub open spec fn spec_offset(&self) -> (int, int) {
        match self {
            Direction::North => (0int, -1int),
            Direction::South => (0int, 1int),
            Direction::West => (-1int, 0int),
            Direction::East => (1int, 0int),
        }
    }

    /// The coordinates of the cell directly in front of `position` when
    /// facing this direction (clamped at the world's edge).
    pub fn coordinates_in_front(&self, position: (i32, i32, i32)) -> (r: (i32, i32, i32))
        ensures
            r.0 == sat_add_i32(position.0 as int, self.spec_offset().0),
            r.1 == sat_add_i32(position.1 as int, self.spec_offset().1),
            r.2 == position.2,
    {
        let down = |v: i32| -> (r: i32)
            ensures
                r == sat_add_i32(v as int, -1),
            {
                if v > i32::MIN {
                    v - 1
                } else {
                    v
                }
            };
        let up = |v: i32| -> (r: i32)
            ensures
                r == sat_add_i32(v as int, 1),
            {
                if v < i32::MAX {
                    v + 1
                } else {
                    v
                }
            };
        match self {
            Direction::North => (position.0, down(position.1), position.2),
            Direction::South => (position.0, up(position.1), position.2),
            Direction::West => (down(position.0), position.1, position.2),
            Direction::East => (up(position.0), position.1, position.2),
        }
    }
}

/// The chunk coordinate of any representable world coordinate is itself
/// representable: its world corner fits in an `i32`.
pub proof fn lemma_chunk_coord_bounds(w: int)
    requires
        i32::MIN <= w <= i32::MAX,
    ensures
        -67108864 <= spec_chunk_coord(w) <= 67108863,
{
    vstd::arithmetic::div_mod::lemma_div_is_ordered(i32::MIN as int, w, CHUNK_SIZE as int);
    vstd::arithmetic::div_mod::lemma_div_is_ordered(w, i32::MAX as int, CHUNK_SIZE as int);
    assert((i32::MIN as int) / (CHUNK_SIZE as int) == -67108864);
    assert((i32::MAX as int) / (CHUNK_SIZE as int) == 67108863);
}

/// A world coordinate is recovered from its chunk and local coordinates.
pub proof fn lemma_coord_round_trip(w: int)
    ensures
        spec_chunk_coord(w) * (CHUNK_SIZE as int) + spec_local_coord(w) == w,
        0 <= spec_local_coord(w) < CHUNK_SIZE as int,
{
}

} // verus!
