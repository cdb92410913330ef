//! Chunked, lazily generated world map.
//!
//! A `Chunk` owns one `Layer` per vertical index present; a `Layer` owns a
//! `CHUNK_SIZE` x `CHUNK_SIZE` grid of tiles plus the per-layer visibility
//! sets. Chunks are generated deterministically from their coordinates the
//! first time they are asked for, and a repeated load never regenerates what
//! is already there.

use vstd::prelude::*;

use crate::coords::{chunk_coord, local_coord, spec_chunk_coord, spec_local_coord, CHUNK_SIZE};
use crate::structure::{Structure, Wall};
use crate::tile::{Tile, TileKind};

verus! {

/// Chebyshev radius, in chunks, that `load_around` fills.
pub const LOAD_DISTANCE: i32 = 2;

/// Chunk coordinates whose world corner still fits in an `i32`.
pub open spec fn valid_chunk_pos(cx: int, cy: int) -> bool {
    &&& -67108864 <= cx <= 67108863
    &&& -67108864 <= cy <= 67108863
}

/// The tile the deterministic generator places at local coordinates
/// `(lx, ly)` of any chunk: a wall in the corner, two water cells on the
/// diagonal, grass everywhere else.
pub open spec fn spec_generated_tile(lx: int, ly: int) -> Tile {
    if lx == 0 && ly == 0 {
        Tile { kind: TileKind::Grass, structure: Some(Structure::Wall(Wall {})) }
    } else if (lx == 1 && ly == 1) || (lx == 2 && ly == 2) {
        Tile { kind: TileKind::Water, structure: None }
    } else {
        Tile { kind: TileKind::Grass, structure: None }
    }
}

/// Law: freshly generated terrain is walkable everywhere except the corner
/// wall, and only that wall blocks sight.
pub proof fn lemma_generated_tile_walkability(lx: int, ly: int)
    requires
        0 <= lx < CHUNK_SIZE,
        0 <= ly < CHUNK_SIZE,
    ensures
        spec_generated_tile(lx, ly).spec_walkable() == !(lx == 0 && ly == 0),
        spec_generated_tile(lx, ly).spec_block_sight() == (lx == 0 && ly == 0),
{
}

/// A full generated tile grid: square, with every cell as the generator
/// places it (`tiles[ly][lx]` is the cell at local `(lx, ly)`).
pub open spec fn is_generated_tiles(tiles: Seq<Vec<Tile>>) -> bool {
    &&& tiles.len() == CHUNK_SIZE
    &&& (forall|ly: int| 0 <= ly < CHUNK_SIZE ==> (#[trigger] tiles[ly])@.len() == CHUNK_SIZE)
    &&& (forall|lx: int, ly: int|
        0 <= lx < CHUNK_SIZE && 0 <= ly < CHUNK_SIZE ==> #[trigger] tiles[ly]@[lx]
            == spec_generated_tile(lx, ly))
}

/// A freshly generated layer for the chunk at `cpos`: generated tiles,
/// nothing visible, nothing revealed.
pub open spec fn is_generated_layer(l: Layer, cpos: (i32, i32), z: i32) -> bool {
    &&& l.z == z
    &&& l.position.0 == cpos.0 * (CHUNK_SIZE as int)
    &&& l.position.1 == cpos.1 * (CHUNK_SIZE as int)
    &&& is_generated_tiles(l.tiles@)
    &&& l.visible_tiles@ == Seq::<(i32, i32)>::empty()
    &&& l.revealed_tiles@ == Seq::<(i32, i32)>::empty()
}

/// One vertical slice of a chunk: a square tile grid plus the two
/// visibility sets for that layer.
pub struct Layer {
    /// Vertical index of this layer.
    pub z: i32,
    /// World coordinates of the chunk's top-left corner.
    pub position: (i32, i32),
    /// Tile grid; `tiles[ly][lx]` is the cell at local `(lx, ly)`.
    pub tiles: Vec<Vec<Tile>>,
    /// World coordinates of tiles currently in view.
    pub visible_tiles: Vec<(i32, i32)>,
    /// World coordinates of tiles ever seen; drawn grayed out.
    pub revealed_tiles: Vec<(i32, i32)>,
}

impl Layer {
    /// The grid is square with side `CHUNK_SIZE`.
    pub open spec fn wf(&self) -> bool {
        &&& self.tiles@.len() == CHUNK_SIZE
        &&& (forall|ly: int|
            0 <= ly < CHUNK_SIZE ==> (#[trigger] self.tiles@[ly])@.len() == CHUNK_SIZE)
    }

    /// The tile at local coordinates `(lx, ly)`.
    pub open spec fn spec_tile(&self, lx: int, ly: int) -> Tile {
        self.tiles@[ly]@[lx]
    }

    /// Whether world coordinates `(x, y)` fall inside this layer's chunk.
    pub open spec fn spec_owns(&self, x: int, y: int) -> bool {
        &&& self.position.0 <= x < self.position.0 + CHUNK_SIZE
        &&& self.position.1 <= y < self.position.1 + CHUNK_SIZE
    }

    /// A layer over the given tile grid, with empty visibility sets.
    pub fn new(tiles: Vec<Vec<Tile>>, z: i32, position: (i32, i32)) -> (r: Layer)
        ensures
            r.z == z,
            r.position == position,
            r.tiles == tiles,
            r.visible_tiles@ == Seq::<(i32, i32)>::empty(),
            r.revealed_tiles@ == Seq::<(i32, i32)>::empty(),
    {
        Layer { z, position, tiles, visible_tiles: Vec::new(), revealed_tiles: Vec::new() }
    }
}

/// Builds one generated tile grid.
fn generate_tiles() -> (r: Vec<Vec<Tile>>)
    ensures
        is_generated_tiles(r@),
{
    let mut rows: Vec<Vec<Tile>> = Vec::new();
    let mut ly: i32 = 0;
    while ly < CHUNK_SIZE
        invariant
            0 <= ly <= CHUNK_SIZE,
            rows@.len() == ly,
            forall|j: int| 0 <= j < ly ==> (#[trigger] rows@[j])@.len() == CHUNK_SIZE,
            forall|i: int, j: int|
                0 <= i < CHUNK_SIZE && 0 <= j < ly ==> #[trigger] rows@[j]@[i]
                    == spec_generated_tile(i, j),
        decreases CHUNK_SIZE - ly,
    {
        let mut row: Vec<Tile> = Vec::new();
        let mut lx: i32 = 0;
        while lx < CHUNK_SIZE
            invariant
                0 <= lx <= CHUNK_SIZE,
                row@.len() == lx,
                forall|i: int| 0 <= i < lx ==> #[trigger] row@[i] == spec_generated_tile(i, ly as int),
            decreases CHUNK_SIZE - lx,
        {
            let tile = if lx == 0 && ly == 0 {
                let mut t = Tile::new(TileKind::Grass);
                t.add_structure(Structure::Wall(Wall {}));
                t
            } else if (lx == 1 && ly == 1) || (lx == 2 && ly == 2) {
                Tile::new(TileKind::Water)
            } else {
                Tile::new(TileKind::Grass)
            };
            row.push(tile);
            lx = lx + 1;
        }
        rows.push(row);
        ly = ly + 1;
    }
    rows
}

/// Whether a coordinate list contains a point.
pub fn coords_contains(v: &Vec<(i32, i32)>, p: (i32, i32)) -> (r: bool)
    ensures
        r == v@.contains(p),
{
    let mut i: usize = 0;
    while i < v.len()
        invariant
            0 <= i <= v@.len(),
            forall|j: int| 0 <= j < i ==> v@[j] != p,
        decreases v@.len() - i,
    {
        let q = v[i];
        if q.0 == p.0 && q.1 == p.1 {
            assert(v@[i as int] == p);
            return true;
        }
        i = i + 1;
    }
    false
}

/// Membership in a pushed coordinate list.
proof fn lemma_contains_after_push(s: Seq<(i32, i32)>, v: (i32, i32), p: (i32, i32))
    ensures
        s.push(v).contains(p) <==> (s.contains(p) || p == v),
{
    if s.push(v).contains(p) {
        let i = choose|i: int| 0 <= i < s.push(v).len() && s.push(v)[i] == p;
        if i < s.len() {
            assert(s[i] == p);
        }
    }
    if s.contains(p) {
        let i = choose|i: int| 0 <= i < s.len() && s[i] == p;
        assert(s.push(v)[i] == p);
    }
    if p == v {
        assert(s.push(v)[s.len() as int] == p);
    }
}

/// Replaces a layer's visible set: on the layer at `z` the new set is the
/// points of `visible` that the layer owns (which are also added to the
/// revealed set); on every other layer the visible set is cleared.
fn layer_apply_visibility(l: &mut Layer, z: i32, visible: &Vec<(i32, i32)>)
    requires
        old(l).wf(),
    ensures
        final(l).wf(),
        final(l).z == old(l).z,
        final(l).position == old(l).position,
        final(l).tiles == old(l).tiles,
        old(l).z == z ==> (forall|p: (i32, i32)|
            #[trigger] final(l).visible_tiles@.contains(p) <==> (visible@.contains(p) && old(l).spec_owns(p.0 as int, p.1 as int))),
        old(l).z == z ==> (forall|p: (i32, i32)|
            #[trigger] final(l).revealed_tiles@.contains(p) <==> (old(l).revealed_tiles@.contains(p) || (visible@.contains(p) && old(l).spec_owns(
                p.0 as int,
                p.1 as int,
            )))),
        old(l).z != z ==> final(l).visible_tiles@ == Seq::<(i32, i32)>::empty() && final(l).revealed_tiles@ == old(l).revealed_tiles@,
{
    if l.z != z {
        l.visible_tiles = Vec::new();
        return ;
    }
    let mut new_visible: Vec<(i32, i32)> = Vec::new();
    let mut i: usize = 0;
    while i < visible.len()
        invariant
            old(l).wf(),
            0 <= i <= visible@.len(),
            l.z == old(l).z,
            l.position == old(l).position,
            l.tiles == old(l).tiles,
            l.visible_tiles == old(l).visible_tiles,
            forall|p: (i32, i32)|
                #[trigger] new_visible@.contains(p) <==> (visible@.take(i as int).contains(p)
                    && old(l).spec_owns(p.0 as int, p.1 as int)),
            forall|p: (i32, i32)|
                #[trigger] l.revealed_tiles@.contains(p) <==> (old(l).revealed_tiles@.contains(p)
                    || (visible@.take(i as int).contains(p) && old(l).spec_owns(
                    p.0 as int,
                    p.1 as int,
                ))),
        decreases visible@.len() - i,
    {
        let p = visible[i];
        let ghost prev_vis = new_visible@;
        let ghost prev_rev = l.revealed_tiles@;
        let owns = l.position.0 as i64 <= p.0 as i64 && (p.0 as i64) < l.position.0 as i64
            + CHUNK_SIZE as i64 && l.position.1 as i64 <= p.1 as i64 && (p.1 as i64)
            < l.position.1 as i64 + CHUNK_SIZE as i64;
        if owns {
            new_visible.push(p);
            l.revealed_tiles.push(p);
        }
        proof {
            assert(visible@.take(i + 1) =~= visible@.take(i as int).push(p));
            assert forall|q: (i32, i32)|
                #[trigger] new_visible@.contains(q) <==> (visible@.take(i + 1).contains(q) && old(l).spec_owns(q.0 as int, q.1 as int)) by {
                lemma_contains_after_push(visible@.take(i as int), p, q);
                if owns {
                    lemma_contains_after_push(prev_vis, p, q);
                }
            }
            assert forall|q: (i32, i32)|
                #[trigger] l.revealed_tiles@.contains(q) <==> (old(l).revealed_tiles@.contains(q)
                    || (visible@.take(i + 1).contains(q) && old(l).spec_owns(
                    q.0 as int,
                    q.1 as int,
                ))) by {
                lemma_contains_after_push(visible@.take(i as int), p, q);
                if owns {
                    lemma_contains_after_push(prev_rev, p, q);
                }
            }
        }
        i = i + 1;
    }
    proof {
        assert(visible@.take(visible@.len() as int) =~= visible@);
    }
    l.visible_tiles = new_visible;
}

/// A chunk: all loaded layers of one `CHUNK_SIZE`-square of the world.
pub struct Chunk {
    /// Chunk coordinates (world coordinates floor-divided by `CHUNK_SIZE`).
    pub position: (i32, i32),
    /// Loaded layers, with pairwise distinct vertical indices.
    pub layers: Vec<Layer>,
}

impl Chunk {
    /// Layers are well-formed, anchored at this chunk's corner, and have
    /// pairwise distinct vertical indices.
    pub open spec fn wf(&self) -> bool {
        &&& valid_chunk_pos(self.position.0 as int, self.position.1 as int)
        &&& (forall|i: int|
            0 <= i < self.layers@.len() ==> (#[trigger] self.layers@[i]).wf())
        &&& (forall|i: int|
            0 <= i < self.layers@.len() ==> (#[trigger] self.layers@[i]).position.0
                == self.position.0 * (CHUNK_SIZE as int) && self.layers@[i].position.1
                == self.position.1 * (CHUNK_SIZE as int))
        &&& (forall|i: int, j: int|
            0 <= i < j < self.layers@.len() ==> (#[trigger] self.layers@[i]).z
                != (#[trigger] self.layers@[j]).z)
    }

    /// Whether the layer at vertical index `z` is loaded.
    pub open spec fn spec_has_layer(&self, z: i32) -> bool {
        exists|i: int| 0 <= i < self.layers@.len() && (#[trigger] self.layers@[i]).z == z
    }

    /// Index of the layer at vertical index `z`, when loaded.
    pub open spec fn spec_layer_idx(&self, z: i32) -> int {
        choose|i: int| 0 <= i < self.layers@.len() && (#[trigger] self.layers@[i]).z == z
    }

    /// In a well-formed chunk, a layer's index is recovered from its vertical index.
    pub proof fn lemma_layer_idx(&self, i: int)
        requires
            self.wf(),
            0 <= i < self.layers@.len(),
        ensures
            self.spec_has_layer(self.layers@[i].z),
            self.spec_layer_idx(self.layers@[i].z) == i,
    {
        let z = self.layers@[i].z;
        assert(self.spec_has_layer(z));
        let j = self.spec_layer_idx(z);
        if j != i {
            if j < i {
                assert(self.layers@[j].z != self.layers@[i].z);
            } else {
                assert(self.layers@[i].z != self.layers@[j].z);
            }
        }
    }

    /// The tile this chunk holds at world coordinates `(x, y, z)`, when the
    /// layer is loaded.
    pub open spec fn spec_get_tile(&self, x: int, y: int, z: i32) -> Option<Tile> {
        if self.spec_has_layer(z) {
            Some(
                self.layers@[self.spec_layer_idx(z)].spec_tile(
                    spec_local_coord(x),
                    spec_local_coord(y),
                ),
            )
        } else {
            None
        }
    }

    /// A new chunk with one freshly generated layer.
    pub fn new(chunk_x: i32, chunk_y: i32, layer: i32) -> (r: Chunk)
        requires
            valid_chunk_pos(chunk_x as int, chunk_y as int),
        ensures
            r.wf(),
            r.position == (chunk_x, chunk_y),
            r.layers@.len() == 1,
            is_generated_layer(r.layers@[0], (chunk_x, chunk_y), layer),
    {
        let world_x: i32 = chunk_x * CHUNK_SIZE;
        let world_y: i32 = chunk_y * CHUNK_SIZE;
        let l = Layer::new(generate_tiles(), layer, (world_x, world_y));
        let mut layers: Vec<Layer> = Vec::new();
        layers.push(l);
        Chunk { position: (chunk_x, chunk_y), layers }
    }

    /// Index of the loaded layer at vertical index `z`, if any.
    fn find_layer(&self, z: i32) -> (r: Option<usize>)
        ensures
            match r {
                Some(i) => 0 <= i < self.layers@.len() && self.layers@[i as int].z == z,
                None => !self.spec_has_layer(z),
            },
    {
        let mut i: usize = 0;
        while i < self.layers.len()
            invariant
                0 <= i <= self.layers@.len(),
                forall|j: int| 0 <= j < i ==> (#[trigger] self.layers@[j]).z != z,
            decreases self.layers@.len() - i,
        {
            if self.layers[i].z == z {
                return Some(i);
            }
            i = i + 1;
        }
        None
    }

    /// World coordinates of the chunk's top-left corner.
    pub fn get_chunk_world_position(&self) -> (r: (i32, i32))
        requires
            valid_chunk_pos(self.position.0 as int, self.position.1 as int),
        ensures
            r.0 == self.position.0 * (CHUNK_SIZE as int),
            r.1 == self.position.1 * (CHUNK_SIZE as int),
    {
        (self.position.0 * CHUNK_SIZE, self.position.1 * CHUNK_SIZE)
    }

    /// Local coordinates of world coordinates inside their chunk.
    pub fn convert_to_local_chunk_coordinates(global_x: i32, global_y: i32) -> (r: (usize, usize))
        ensures
            r.0 == spec_local_coord(global_x as int),
            r.1 == spec_local_coord(global_y as int),
    {
        (local_coord(global_x) as usize, local_coord(global_y) as usize)
    }

    /// The tile at world coordinates, when its layer is loaded here.
    pub fn get_tile(&self, global_coordinates: (i32, i32, i32)) -> (r: Option<Tile>)
        requires
            self.wf(),
        ensures
            r == self.spec_get_tile(
                global_coordinates.0 as int,
                global_coordinates.1 as int,
                global_coordinates.2,
            ),
    {
        match self.find_layer(global_coordinates.2) {
            Some(li) => {
                proof {
                    self.lemma_layer_idx(li as int);
                }
                let (lx, ly) = Self::convert_to_local_chunk_coordinates(
                    global_coordinates.0,
                    global_coordinates.1,
                );
                Some(self.layers[li].tiles[ly][lx])
            },
            None => None,
        }
    }
}

/// The world map: every chunk loaded so far.
pub struct WorldMap {
    /// Loaded chunks, with pairwise distinct positions.
    pub chunks: Vec<Chunk>,
}

impl WorldMap {
    /// Chunks are well-formed and have pairwise distinct positions.
    pub open spec fn wf(&self) -> bool {
        &&& (forall|i: int| 0 <= i < self.chunks@.len() ==> (#[trigger] self.chunks@[i]).wf())
        &&& (forall|i: int, j: int|
            0 <= i < j < self.chunks@.len() ==> (#[trigger] self.chunks@[i]).position
                != (#[trigger] self.chunks@[j]).position)
    }

    /// Whether the chunk at chunk coordinates `(cx, cy)` is loaded.
    pub open spec fn spec_has_chunk(&self, cx: int, cy: int) -> bool {
        exists|i: int|
            0 <= i < self.chunks@.len() && (#[trigger] self.chunks@[i]).position.0 == cx
                && self.chunks@[i].position.1 == cy
    }

    /// Index of the chunk at chunk coordinates `(cx, cy)`, when loaded.
    pub open spec fn spec_chunk_idx(&self, cx: int, cy: int) -> int {
        choose|i: int|
            0 <= i < self.chunks@.len() && (#[trigger] self.chunks@[i]).position.0 == cx
                && self.chunks@[i].position.1 == cy
    }

    /// In a well-formed map, a chunk's index is recovered from its position.
    pub proof fn lemma_chunk_idx(&self, i: int)
        requires
            self.wf(),
            0 <= i < self.chunks@.len(),
        ensures
            self.spec_has_chunk(
                self.chunks@[i].position.0 as int,
                self.chunks@[i].position.1 as int,
            ),
            self.spec_chunk_idx(
                self.chunks@[i].position.0 as int,
                self.chunks@[i].position.1 as int,
            ) == i,
    {
        let cx = self.chunks@[i].position.0 as int;
        let cy = self.chunks@[i].position.1 as int;
        assert(self.spec_has_chunk(cx, cy));
        let j = self.spec_chunk_idx(cx, cy);
        if j != i {
            if j < i {
                assert(self.chunks@[j].position != self.chunks@[i].position);
            } else {
                assert(self.chunks@[i].position != self.chunks@[j].position);
            }
        }
    }

    /// Whether the chunk at `(cx, cy)` is loaded with a layer at `z`.
    pub open spec fn spec_loaded(&self, cx: int, cy: int, z: i32) -> bool {
        self.spec_has_chunk(cx, cy) && self.chunks@[self.spec_chunk_idx(cx, cy)].spec_has_layer(z)
    }

    /// The loaded layer at chunk coordinates `(cx, cy)` and vertical index `z`.
    pub open spec fn spec_layer(&self, cx: int, cy: int, z: i32) -> Layer {
        let c = self.chunks@[self.spec_chunk_idx(cx, cy)];
        c.layers@[c.spec_layer_idx(z)]
    }

    /// The tile at world coordinates, when its chunk and layer are loaded.
    pub open spec fn spec_get_tile(&self, x: int, y: int, z: i32) -> Option<Tile> {
        let cx = spec_chunk_coord(x);
        let cy = spec_chunk_coord(y);
        if self.spec_loaded(cx, cy, z) {
            Some(self.spec_layer(cx, cy, z).spec_tile(spec_local_coord(x), spec_local_coord(y)))
        } else {
            None
        }
    }

    /// An empty map.
    pub fn new() -> (r: WorldMap)
        ensures
            r.wf(),
            r.chunks@.len() == 0,
    {
        WorldMap { chunks: Vec::new() }
    }

    /// Chunk coordinates that own the given world coordinates.
    pub fn convert_to_chunk_coordinates(global_x: i32, global_y: i32) -> (r: (i32, i32))
        ensures
            r.0 == spec_chunk_coord(global_x as int),
            r.1 == spec_chunk_coord(global_y as int),
            valid_chunk_pos(r.0 as int, r.1 as int),
    {
        (chunk_coord(global_x), chunk_coord(global_y))
    }

    /// Index of the loaded chunk at chunk coordinates `(cx, cy)`, if any.
    fn find_chunk(&self, cx: i32, cy: i32) -> (r: Option<usize>)
        ensures
            match r {
                Some(i) => 0 <= i < self.chunks@.len() && self.chunks@[i as int].position == (
                cx,
                cy,
                ),
                None => !self.spec_has_chunk(cx as int, cy as int),
            },
    {
        let mut i: usize = 0;
        while i < self.chunks.len()
            invariant
                0 <= i <= self.chunks@.len(),
                forall|j: int|
                    0 <= j < i ==> (#[trigger] self.chunks@[j]).position != (cx, cy),
            decreases self.chunks@.len() - i,
        {
            let p = self.chunks[i].position;
            if p.0 == cx && p.1 == cy {
                return Some(i);
            }
            i = i + 1;
        }
        None
    }

    /// The tile at world coordinates, when its chunk and layer are loaded.
    pub fn get_tile(&self, global_coordinates: (i32, i32, i32)) -> (r: Option<Tile>)
        requires
            self.wf(),
        ensures
            r == self.spec_get_tile(
                global_coordinates.0 as int,
                global_coordinates.1 as int,
                global_coordinates.2,
            ),
    {
        let (cx, cy) = Self::convert_to_chunk_coordinates(
            global_coordinates.0,
            global_coordinates.1,
        );
        match self.find_chunk(cx, cy) {
            Some(ci) => {
                proof {
                    self.lemma_chunk_idx(ci as int);
                }
                self.chunks[ci].get_tile(global_coordinates)
            },
            None => None,
        }
    }

    /// The structure on the tile at world coordinates, if any.
    pub fn structure_at(&self, global_coordinates: (i32, i32, i32)) -> (r: Option<Structure>)
        requires
            self.wf(),
        ensures
            r == match self.spec_get_tile(
                global_coordinates.0 as int,
                global_coordinates.1 as int,
                global_coordinates.2,
            ) {
                Some(t) => t.structure,
                None => None,
            },
    {
        match self.get_tile(global_coordinates) {
            Some(t) => t.structure,
            None => None,
        }
    }

    /// Whether the layer owning `position` is loaded and currently lists the
    /// point among its visible tiles.
    pub fn layer_visible_contains(&self, position: (i32, i32, i32)) -> (r: bool)
        requires
            self.wf(),
        ensures
            r == ({
                let cx = spec_chunk_coord(position.0 as int);
                let cy = spec_chunk_coord(position.1 as int);
                self.spec_loaded(cx, cy, position.2) && self.spec_layer(
                    cx,
                    cy,
                    position.2,
                ).visible_tiles@.contains((position.0, position.1))
            }),
    {
        let (cx, cy) = Self::convert_to_chunk_coordinates(position.0, position.1);
        match self.find_chunk(cx, cy) {
            None => false,
            Some(ci) => {
                proof {
                    self.lemma_chunk_idx(ci as int);
                }
                match self.chunks[ci].find_layer(position.2) {
                    None => false,
                    Some(li) => {
                        proof {
                            self.chunks@[ci as int].lemma_layer_idx(li as int);
                        }
                        coords_contains(
                            &self.chunks[ci].layers[li].visible_tiles,
                            (position.0, position.1),
                        )
                    },
                }
            },
        }
    }

    /// Ensures the chunk at `(chunk_x, chunk_y)` is loaded with a layer at
    /// `layer`: creates the chunk if absent, adds the layer to an existing
    /// chunk if missing, and otherwise changes nothing at all.
    pub fn load_chunk(&mut self, chunk_x: i32, chunk_y: i32, layer: i32)
        requires
            old(self).wf(),
            valid_chunk_pos(chunk_x as int, chunk_y as int),
        ensures
            final(self).wf(),
            final(self).spec_loaded(chunk_x as int, chunk_y as int, layer),
            // already loaded: a repeated load is a no-op
            old(self).spec_loaded(chunk_x as int, chunk_y as int, layer) ==> *final(self) == *old(self),
            // every layer loaded before survives unchanged
            forall|cx: int, cy: int, z: i32|
                old(self).spec_loaded(cx, cy, z) ==> final(self).spec_loaded(cx, cy, z) && final(self).spec_layer(cx, cy, z) == old(self).spec_layer(cx, cy, z),
            // a layer that was missing comes back freshly generated
            !old(self).spec_loaded(chunk_x as int, chunk_y as int, layer) ==> is_generated_layer(
                final(self).spec_layer(chunk_x as int, chunk_y as int, layer),
                (chunk_x, chunk_y),
                layer,
            ),
            // nothing else appears
            forall|cx: int, cy: int, z: i32|
                final(self).spec_loaded(cx, cy, z) ==> old(self).spec_loaded(cx, cy, z) || (cx
                    == chunk_x as int && cy == chunk_y as int && z == layer),
    {
        match self.find_chunk(chunk_x, chunk_y) {
            None => {
                let c = Chunk::new(chunk_x, chunk_y, layer);
                self.chunks.push(c);
                proof {
                    let n = old(self).chunks@.len() as int;
                    assert forall|i: int| 0 <= i < self.chunks@.len() implies (
                    #[trigger] self.chunks@[i]).wf() by {
                        if i < n {
                            assert(self.chunks@[i] == old(self).chunks@[i]);
                        }
                    }
                    assert forall|i: int, j: int| 0 <= i < j < self.chunks@.len() implies (
                    #[trigger] self.chunks@[i]).position != (#[trigger] self.chunks@[j]).position by {
                        if j < n {
                            assert(old(self).chunks@[i].position != old(self).chunks@[j].position);
                        } else {
                            assert(self.chunks@[j].position == (chunk_x, chunk_y));
                            if self.chunks@[i].position == (chunk_x, chunk_y) {
                                old(self).lemma_chunk_idx(i);
                                assert(old(self).spec_has_chunk(
                                    chunk_x as int,
                                    chunk_y as int,
                                ));
                            }
                        }
                    }
                    self.lemma_chunk_idx(n);
                    assert(self.chunks@[n].spec_has_layer(layer));
                    self.chunks@[n].lemma_layer_idx(0);
                    assert(final(self).spec_loaded(chunk_x as int, chunk_y as int, layer));
                    assert forall|cx: int, cy: int, z: i32|
                        old(self).spec_loaded(cx, cy, z) implies final(self).spec_loaded(cx, cy, z)
                        && final(self).spec_layer(cx, cy, z) == old(self).spec_layer(
                        cx,
                        cy,
                        z,
                    ) by {
                        let i = old(self).spec_chunk_idx(cx, cy);
                        old(self).lemma_chunk_idx(i);
                        assert(self.chunks@[i] == old(self).chunks@[i]);
                        self.lemma_chunk_idx(i);
                    }
                    assert forall|cx: int, cy: int, z: i32|
                        final(self).spec_loaded(cx, cy, z) implies old(self).spec_loaded(cx, cy, z)
                        || (cx == chunk_x as int && cy == chunk_y as int && z == layer) by {
                        let i = self.spec_chunk_idx(cx, cy);
                        self.lemma_chunk_idx(i);
                        if i < n {
                            assert(self.chunks@[i] == old(self).chunks@[i]);
                            old(self).lemma_chunk_idx(i);
                        } else {
                            let li = self.chunks@[i].spec_layer_idx(z);
                            assert(self.chunks@[i].layers@[li].z == z);
                        }
                    }
                }
            },
            Some(ci) => {
                proof {
                    self.lemma_chunk_idx(ci as int);
                }
                match self.chunks[ci].find_layer(layer) {
                    Some(li) => {
                        proof {
                            self.chunks@[ci as int].lemma_layer_idx(li as int);
                        }
                    },
                    None => {
                        let world_x: i32 = chunk_x * CHUNK_SIZE;
                        let world_y: i32 = chunk_y * CHUNK_SIZE;
                        let l = Layer::new(generate_tiles(), layer, (world_x, world_y));
                        let ghost old_c = self.chunks@[ci as int];
                        let c = &mut self.chunks[ci];
                        c.layers.push(l);
                        proof {
                            let nl = old_c.layers@.len() as int;
                            assert forall|i: int, j: int|
                                0 <= i < j < self.chunks@[ci as int].layers@.len() implies (
                            #[trigger] self.chunks@[ci as int].layers@[i]).z != (
                            #[trigger] self.chunks@[ci as int].layers@[j]).z by {
                                if j < nl {
                                    assert(old_c.layers@[i].z != old_c.layers@[j].z);
                                } else {
                                    if self.chunks@[ci as int].layers@[i].z == layer {
                                        old_c.lemma_layer_idx(i);
                                    }
                                }
                            }
                            assert(self.chunks@[ci as int].wf());
                            assert forall|i: int| 0 <= i < self.chunks@.len() implies (
                            #[trigger] self.chunks@[i]).wf() by {
                                if i != ci as int {
                                    assert(self.chunks@[i] == old(self).chunks@[i]);
                                }
                            }
                            assert(self.wf());
                            self.lemma_chunk_idx(ci as int);
                            self.chunks@[ci as int].lemma_layer_idx(nl);
                            assert(is_generated_layer(
                                final(self).spec_layer(chunk_x as int, chunk_y as int, layer),
                                (chunk_x, chunk_y),
                                layer,
                            ));
                            assert forall|cx: int, cy: int, z: i32|
                                old(self).spec_loaded(cx, cy, z) implies final(self).spec_loaded(
                                cx,
                                cy,
                                z,
                            ) && final(self).spec_layer(cx, cy, z) == old(self).spec_layer(
                                cx,
                                cy,
                                z,
                            ) by {
                                let i = old(self).spec_chunk_idx(cx, cy);
                                old(self).lemma_chunk_idx(i);
                                self.lemma_chunk_idx(i);
                                let lj = old(self).chunks@[i].spec_layer_idx(z);
                                old(self).chunks@[i].lemma_layer_idx(lj);
                                if i == ci as int {
                                    assert(self.chunks@[i].layers@[lj] == old(self).chunks@[i].layers@[lj]);
                                    self.chunks@[i].lemma_layer_idx(lj);
                                } else {
                                    assert(self.chunks@[i] == old(self).chunks@[i]);
                                }
                            }
                            assert forall|cx: int, cy: int, z: i32|
                                final(self).spec_loaded(cx, cy, z) implies old(self).spec_loaded(
                                cx,
                                cy,
                                z,
                            ) || (cx == chunk_x as int && cy == chunk_y as int && z == layer) by {
                                let i = self.spec_chunk_idx(cx, cy);
                                self.lemma_chunk_idx(i);
                                if i == ci as int {
                                    let lj = self.chunks@[i].spec_layer_idx(z);
                                    if lj < nl {
                                        assert(old_c.layers@[lj].z == z);
                                        old(self).lemma_chunk_idx(i);
                                        old_c.lemma_layer_idx(lj);
                                    }
                                } else {
                                    assert(self.chunks@[i] == old(self).chunks@[i]);
                                    old(self).lemma_chunk_idx(i);
                                }
                            }
                        }
                    },
                }
            },
        }
    }

    /// Loads every chunk within Chebyshev distance `LOAD_DISTANCE` of the
    /// chunk owning `global_coordinates`, for that point's layer.
    pub fn load_around(&mut self, global_coordinates: (i32, i32, i32))
        requires
            old(self).wf(),
        ensures
            final(self).wf(),
            // the whole neighbourhood of the point's chunk is loaded
            forall|cx: int, cy: int|
                {
                    let ccx = spec_chunk_coord(global_coordinates.0 as int);
                    let ccy = spec_chunk_coord(global_coordinates.1 as int);
                    ccx - LOAD_DISTANCE <= cx <= ccx + LOAD_DISTANCE && ccy - LOAD_DISTANCE <= cy
                        <= ccy + LOAD_DISTANCE && valid_chunk_pos(cx, cy)
                } ==> final(self).spec_loaded(cx, cy, global_coordinates.2),
            // every layer loaded before survives unchanged
            forall|cx: int, cy: int, z: i32|
                old(self).spec_loaded(cx, cy, z) ==> final(self).spec_loaded(cx, cy, z) && final(self).spec_layer(cx, cy, z) == old(self).spec_layer(cx, cy, z),
            // a layer loaded by this call carries freshly generated content
            forall|cx: int, cy: int, z: i32|
                !old(self).spec_loaded(cx, cy, z) && #[trigger] final(self).spec_loaded(cx, cy, z)
                    ==> is_generated_layer(
                    final(self).spec_layer(cx, cy, z),
                    ((cx as i32), (cy as i32)),
                    z,
                ),
    {
        let ccx = chunk_coord(global_coordinates.0);
        let ccy = chunk_coord(global_coordinates.1);
        let z = global_coordinates.2;
        let mut dy: i32 = -LOAD_DISTANCE;
        while dy <= LOAD_DISTANCE
            invariant
                self.wf(),
                -LOAD_DISTANCE <= dy <= LOAD_DISTANCE + 1,
                ccx == spec_chunk_coord(global_coordinates.0 as int),
                ccy == spec_chunk_coord(global_coordinates.1 as int),
                forall|cx: int, cy: int|
                    ccx - LOAD_DISTANCE <= cx <= ccx + LOAD_DISTANCE && ccy - LOAD_DISTANCE <= cy
                        < ccy + dy && valid_chunk_pos(cx, cy) ==> self.spec_loaded(cx, cy, z),
                forall|cx: int, cy: int, zz: i32|
                    old(self).spec_loaded(cx, cy, zz) ==> self.spec_loaded(cx, cy, zz)
                        && self.spec_layer(cx, cy, zz) == old(self).spec_layer(cx, cy, zz),
                forall|cx: int, cy: int, zz: i32|
                    !old(self).spec_loaded(cx, cy, zz) && #[trigger] self.spec_loaded(cx, cy, zz)
                        ==> is_generated_layer(
                        self.spec_layer(cx, cy, zz),
                        ((cx as i32), (cy as i32)),
                        zz,
                    ),
            decreases LOAD_DISTANCE + 1 - dy,
    {
            let mut dx: i32 = -LOAD_DISTANCE;
            while dx <= LOAD_DISTANCE
                invariant
                    self.wf(),
                    -LOAD_DISTANCE <= dy <= LOAD_DISTANCE,
                    -LOAD_DISTANCE <= dx <= LOAD_DISTANCE + 1,
                    ccx == spec_chunk_coord(global_coordinates.0 as int),
                    ccy == spec_chunk_coord(global_coordinates.1 as int),
                    forall|cx: int, cy: int|
                        ccx - LOAD_DISTANCE <= cx <= ccx + LOAD_DISTANCE && ccy - LOAD_DISTANCE
                            <= cy < ccy + dy && valid_chunk_pos(cx, cy) ==> self.spec_loaded(
                            cx,
                            cy,
                            z,
                        ),
                    forall|cx: int|
                        ccx - LOAD_DISTANCE <= cx < ccx + dx && valid_chunk_pos(
                            cx,
                            ccy + dy,
                        ) ==> #[trigger] self.spec_loaded(cx, ccy + dy, z),
                    forall|cx: int, cy: int, zz: i32|
                        old(self).spec_loaded(cx, cy, zz) ==> self.spec_loaded(cx, cy, zz)
                            && self.spec_layer(cx, cy, zz) == old(self).spec_layer(cx, cy, zz),
                    forall|cx: int, cy: int, zz: i32|
                        !old(self).spec_loaded(cx, cy, zz) && #[trigger] self.spec_loaded(
                            cx,
                            cy,
                            zz,
                        ) ==> is_generated_layer(
                            self.spec_layer(cx, cy, zz),
                            ((cx as i32), (cy as i32)),
                            zz,
                        ),
                decreases LOAD_DISTANCE + 1 - dx,
            {
                let cx = ccx + dx;
                let cy = ccy + dy;
                if -67108864 <= cx && cx <= 67108863 && -67108864 <= cy && cy <= 67108863 {
                    self.load_chunk(cx, cy, z);
                }
                dx = dx + 1;
            }
            dy = dy + 1;
        }
    }

    /// Puts a structure on the tile at world coordinates. Returns whether the
    /// tile was loaded; an unloaded tile is left alone.
    pub fn add_structure_at(
        &mut self,
        global_coordinates: (i32, i32, i32),
        structure: Structure,
    ) -> (loaded: bool)
        requires
            old(self).wf(),
        ensures
            final(self).wf(),
            loaded == old(self).spec_get_tile(
                global_coordinates.0 as int,
                global_coordinates.1 as int,
                global_coordinates.2,
            ) is Some,
            !loaded ==> *final(self) == *old(self),
            loaded ==> structure_replaced(*old(self), *final(self), global_coordinates, structure),
    {
        let (gx, gy, gz) = global_coordinates;
        let cxy = Self::convert_to_chunk_coordinates(gx, gy);
        let ci_opt = self.find_chunk(cxy.0, cxy.1);
        match ci_opt {
            None => false,
            Some(ci) => {
                proof {
                    self.lemma_chunk_idx(ci as int);
                }
                let li_opt = self.chunks[ci].find_layer(gz);
                match li_opt {
                    None => false,
                    Some(li) => {
                        proof {
                            self.chunks@[ci as int].lemma_layer_idx(li as int);
                        }
                        let (lx, ly) = Chunk::convert_to_local_chunk_coordinates(gx, gy);
                        let c = &mut self.chunks[ci];
                        let l = &mut c.layers[li];
                        let row = &mut l.tiles[ly];
                        let old_tile = row[lx];
                        row.set(lx, Tile { kind: old_tile.kind, structure: Some(structure) });
                        proof {
                            lemma_add_structure_post(
                                *old(self),
                                *self,
                                ci as int,
                                li as int,
                                global_coordinates,
                                structure,
                            );
                        }
                        true
                    },
                }
            },
        }
    }
}

/// `m1` is `m0` with the structure on the tile at `c` replaced by `s` and
/// nothing else: every other tile reads back unchanged, the loaded chunks and
/// layers are the same, and the visibility sets are untouched.
pub open spec fn structure_replaced(
    m0: WorldMap,
    m1: WorldMap,
    c: (i32, i32, i32),
    s: Structure,
) -> bool {
    &&& m1.spec_get_tile(c.0 as int, c.1 as int, c.2) == Some(
        Tile {
            kind: m0.spec_get_tile(c.0 as int, c.1 as int, c.2)->Some_0.kind,
            structure: Some(s),
        },
    )
    &&& (forall|x: int, y: int, z: i32|
        !(x == c.0 as int && y == c.1 as int && z == c.2) ==> m1.spec_get_tile(x, y, z)
            == m0.spec_get_tile(x, y, z))
    &&& m1.chunks@.len() == m0.chunks@.len()
    &&& (forall|cx: int, cy: int, z: i32|
        m1.spec_loaded(cx, cy, z) == m0.spec_loaded(cx, cy, z))
    &&& (forall|cx: int, cy: int, z: i32|
        m0.spec_loaded(cx, cy, z) ==> m1.spec_layer(cx, cy, z).z == m0.spec_layer(cx, cy, z).z
            && m1.spec_layer(cx, cy, z).position == m0.spec_layer(cx, cy, z).position
            && m1.spec_layer(cx, cy, z).visible_tiles@ == m0.spec_layer(cx, cy, z).visible_tiles@
            && m1.spec_layer(cx, cy, z).revealed_tiles@ == m0.spec_layer(cx, cy, z).revealed_tiles@)
}

/// After replacing one tile's structure in place, the map keeps its shape and
/// every other tile reads back unchanged.
proof fn lemma_add_structure_post(
    m1: WorldMap,
    m2: WorldMap,
    ci: int,
    li: int,
    c: (i32, i32, i32),
    structure: Structure,
)
    requires
        m1.wf(),
        0 <= ci < m1.chunks@.len(),
        m1.chunks@[ci].position.0 == spec_chunk_coord(c.0 as int),
        m1.chunks@[ci].position.1 == spec_chunk_coord(c.1 as int),
        0 <= li < m1.chunks@[ci].layers@.len(),
        m1.chunks@[ci].layers@[li].z == c.2,
        m2.chunks@.len() == m1.chunks@.len(),
        forall|i: int| 0 <= i < m1.chunks@.len() && i != ci ==> m2.chunks@[i] == m1.chunks@[i],
        m2.chunks@[ci].position == m1.chunks@[ci].position,
        m2.chunks@[ci].layers@.len() == m1.chunks@[ci].layers@.len(),
        forall|j: int|
            0 <= j < m1.chunks@[ci].layers@.len() && j != li ==> m2.chunks@[ci].layers@[j]
                == m1.chunks@[ci].layers@[j],
        m2.chunks@[ci].layers@[li].z == m1.chunks@[ci].layers@[li].z,
        m2.chunks@[ci].layers@[li].position == m1.chunks@[ci].layers@[li].position,
        m2.chunks@[ci].layers@[li].visible_tiles@ == m1.chunks@[ci].layers@[li].visible_tiles@,
        m2.chunks@[ci].layers@[li].revealed_tiles@ == m1.chunks@[ci].layers@[li].revealed_tiles@,
        m2.chunks@[ci].layers@[li].tiles@.len() == m1.chunks@[ci].layers@[li].tiles@.len(),
        forall|j: int|
            0 <= j < m1.chunks@[ci].layers@[li].tiles@.len() && j != spec_local_coord(c.1 as int)
                ==> m2.chunks@[ci].layers@[li].tiles@[j] == m1.chunks@[ci].layers@[li].tiles@[j],
        m1.chunks@[ci].layers@[li].tiles@.len() == CHUNK_SIZE,
        (m2.chunks@[ci].layers@[li].tiles@[spec_local_coord(c.1 as int)])@
            == (m1.chunks@[ci].layers@[li].tiles@[spec_local_coord(c.1 as int)])@.update(
            spec_local_coord(c.0 as int),
            Tile {
                kind: m1.chunks@[ci].layers@[li].tiles@[spec_local_coord(c.1 as int)]@[
                    spec_local_coord(c.0 as int)].kind,
                structure: Some(structure),
            },
        ),
    ensures
        m2.wf(),
        m2.spec_get_tile(c.0 as int, c.1 as int, c.2) == Some(
            Tile {
                kind: m1.spec_get_tile(c.0 as int, c.1 as int, c.2)->Some_0.kind,
                structure: Some(structure),
            },
        ),
        m1.spec_get_tile(c.0 as int, c.1 as int, c.2) is Some,
        forall|x: int, y: int, z: i32|
            !(x == c.0 as int && y == c.1 as int && z == c.2) ==> m2.spec_get_tile(x, y, z)
                == m1.spec_get_tile(x, y, z),
        forall|cx: int, cy: int, z: i32| m2.spec_loaded(cx, cy, z) == m1.spec_loaded(cx, cy, z),
        forall|cx: int, cy: int, z: i32|
            m1.spec_loaded(cx, cy, z) ==> m2.spec_layer(cx, cy, z).z == m1.spec_layer(cx, cy, z).z
                && m2.spec_layer(cx, cy, z).position == m1.spec_layer(cx, cy, z).position
                && m2.spec_layer(cx, cy, z).visible_tiles@ == m1.spec_layer(
                cx,
                cy,
                z,
            ).visible_tiles@ && m2.spec_layer(cx, cy, z).revealed_tiles@ == m1.spec_layer(
                cx,
                cy,
                z,
            ).revealed_tiles@,
{
    assert forall|i: int| 0 <= i < m2.chunks@.len() implies (#[trigger] m2.chunks@[i]).wf() by {
        if i != ci {
            assert(m2.chunks@[i] == m1.chunks@[i]);
        } else {
            assert forall|j: int| 0 <= j < m2.chunks@[ci].layers@.len() implies (
            #[trigger] m2.chunks@[ci].layers@[j]).wf() by {
                if j != li {
                    assert(m2.chunks@[ci].layers@[j] == m1.chunks@[ci].layers@[j]);
                } else {
                    assert(m1.chunks@[ci].layers@[li].wf());
                    assert forall|r: int|
                        0 <= r < CHUNK_SIZE implies (
                    #[trigger] m2.chunks@[ci].layers@[li].tiles@[r])@.len() == CHUNK_SIZE by {
                        if r != spec_local_coord(c.1 as int) {
                            assert(m2.chunks@[ci].layers@[li].tiles@[r]
                                == m1.chunks@[ci].layers@[li].tiles@[r]);
                        }
                    }
                }
            }
            assert forall|j1: int, j2: int|
                0 <= j1 < j2 < m2.chunks@[ci].layers@.len() implies (
            #[trigger] m2.chunks@[ci].layers@[j1]).z != (#[trigger] m2.chunks@[ci].layers@[j2]).z by {
                assert(m2.chunks@[ci].layers@[j1].z == m1.chunks@[ci].layers@[j1].z);
                assert(m2.chunks@[ci].layers@[j2].z == m1.chunks@[ci].layers@[j2].z);
            }
        }
    }
    assert forall|i: int, j: int| 0 <= i < j < m2.chunks@.len() implies (
    #[trigger] m2.chunks@[i]).position != (#[trigger] m2.chunks@[j]).position by {
        assert(m2.chunks@[i].position == m1.chunks@[i].position);
        assert(m2.chunks@[j].position == m1.chunks@[j].position);
    }
    assert(m2.wf());
    assert forall|cx: int, cy: int, z: i32| m2.spec_loaded(cx, cy, z) == m1.spec_loaded(
        cx,
        cy,
        z,
    ) && (m1.spec_loaded(cx, cy, z) ==> m2.spec_layer(cx, cy, z).z == m1.spec_layer(cx, cy, z).z
        && m2.spec_layer(cx, cy, z).position == m1.spec_layer(cx, cy, z).position && m2.spec_layer(
        cx,
        cy,
        z,
    ).visible_tiles@ == m1.spec_layer(cx, cy, z).visible_tiles@ && m2.spec_layer(
        cx,
        cy,
        z,
    ).revealed_tiles@ == m1.spec_layer(cx, cy, z).revealed_tiles@) by {
        lemma_loaded_equiv(m1, m2, ci, li, cx, cy, z);
    }
    m1.lemma_chunk_idx(ci);
    m1.chunks@[ci].lemma_layer_idx(li);
    m2.lemma_chunk_idx(ci);
    m2.chunks@[ci].lemma_layer_idx(li);
    assert forall|x: int, y: int, z: i32|
        !(x == c.0 as int && y == c.1 as int && z == c.2) implies m2.spec_get_tile(x, y, z)
        == m1.spec_get_tile(x, y, z) by {
        lemma_loaded_equiv(m1, m2, ci, li, spec_chunk_coord(x), spec_chunk_coord(y), z);
        if m1.spec_loaded(spec_chunk_coord(x), spec_chunk_coord(y), z) {
            let i = m1.spec_chunk_idx(spec_chunk_coord(x), spec_chunk_coord(y));
            m1.lemma_chunk_idx(i);
            m2.lemma_chunk_idx(i);
            if i != ci {
                assert(m2.chunks@[i] == m1.chunks@[i]);
            } else {
                let lj = m1.chunks@[i].spec_layer_idx(z);
                m1.chunks@[i].lemma_layer_idx(lj);
                m2.chunks@[i].lemma_layer_idx(lj);
                if lj != li {
                    assert(m2.chunks@[i].layers@[lj] == m1.chunks@[i].layers@[lj]);
                } else {
                    // same chunk and layer: the changed cell is the only
                    // local position excluded by the trigger
                    crate::coords::lemma_coord_round_trip(x);
                    crate::coords::lemma_coord_round_trip(y);
                    crate::coords::lemma_coord_round_trip(c.0 as int);
                    crate::coords::lemma_coord_round_trip(c.1 as int);
                    if spec_local_coord(y) != spec_local_coord(c.1 as int) {
                        assert(m2.chunks@[i].layers@[lj].tiles@[spec_local_coord(y)]
                            == m1.chunks@[i].layers@[lj].tiles@[spec_local_coord(y)]);
                    }
                }
            }
        }
    }
}

/// Loadedness and layer metadata are unchanged by the single-cell update
/// described in `lemma_add_structure_post`.
proof fn lemma_loaded_equiv(m1: WorldMap, m2: WorldMap, ci: int, li: int, cx: int, cy: int, z: i32)
    requires
        m1.wf(),
        m2.wf(),
        m2.chunks@.len() == m1.chunks@.len(),
        0 <= ci < m1.chunks@.len(),
        0 <= li < m1.chunks@[ci].layers@.len(),
        forall|i: int| 0 <= i < m1.chunks@.len() && i != ci ==> m2.chunks@[i] == m1.chunks@[i],
        m2.chunks@[ci].position == m1.chunks@[ci].position,
        m2.chunks@[ci].layers@.len() == m1.chunks@[ci].layers@.len(),
        forall|j: int|
            0 <= j < m1.chunks@[ci].layers@.len() && j != li ==> m2.chunks@[ci].layers@[j]
                == m1.chunks@[ci].layers@[j],
        m2.chunks@[ci].layers@[li].z == m1.chunks@[ci].layers@[li].z,
        m2.chunks@[ci].layers@[li].position == m1.chunks@[ci].layers@[li].position,
        m2.chunks@[ci].layers@[li].visible_tiles@ == m1.chunks@[ci].layers@[li].visible_tiles@,
        m2.chunks@[ci].layers@[li].revealed_tiles@ == m1.chunks@[ci].layers@[li].revealed_tiles@,
    ensures
        m2.spec_loaded(cx, cy, z) == m1.spec_loaded(cx, cy, z),
        m1.spec_loaded(cx, cy, z) ==> m2.spec_layer(cx, cy, z).z == m1.spec_layer(cx, cy, z).z
            && m2.spec_layer(cx, cy, z).position == m1.spec_layer(cx, cy, z).position
            && m2.spec_layer(cx, cy, z).visible_tiles@ == m1.spec_layer(cx, cy, z).visible_tiles@
            && m2.spec_layer(cx, cy, z).revealed_tiles@ == m1.spec_layer(cx, cy, z).revealed_tiles@,
{
    assert forall|i: int| 0 <= i < m1.chunks@.len() implies m2.chunks@[i].position
        == m1.chunks@[i].position && m2.chunks@[i].layers@.len() == m1.chunks@[i].layers@.len()
        && (forall|j: int|
        0 <= j < m1.chunks@[i].layers@.len() ==> (#[trigger] m2.chunks@[i].layers@[j]).z
            == m1.chunks@[i].layers@[j].z) by {
        if i != ci {
            assert(m2.chunks@[i] == m1.chunks@[i]);
        }
    }
    if m1.spec_loaded(cx, cy, z) {
        let i = m1.spec_chunk_idx(cx, cy);
        m1.lemma_chunk_idx(i);
        m2.lemma_chunk_idx(i);
        let lj = m1.chunks@[i].spec_layer_idx(z);
        m1.chunks@[i].lemma_layer_idx(lj);
        assert(m2.chunks@[i].layers@[lj].z == z);
        m2.chunks@[i].lemma_layer_idx(lj);
        if i != ci {
            assert(m2.chunks@[i] == m1.chunks@[i]);
        } else if lj != li {
            assert(m2.chunks@[i].layers@[lj] == m1.chunks@[i].layers@[lj]);
        }
    }
    if m2.spec_loaded(cx, cy, z) {
        let i = m2.spec_chunk_idx(cx, cy);
        m2.lemma_chunk_idx(i);
        m1.lemma_chunk_idx(i);
        let lj = m2.chunks@[i].spec_layer_idx(z);
        m2.chunks@[i].lemma_layer_idx(lj);
        assert(m1.chunks@[i].layers@[lj].z == z);
        m1.chunks@[i].lemma_layer_idx(lj);
    }
}

/// Applies `layer_apply_visibility` to every layer of a chunk.
fn chunk_apply_visibility(c: &mut Chunk, z: i32, visible: &Vec<(i32, i32)>)
    requires
        old(c).wf(),
    ensures
        final(c).wf(),
        final(c).position == old(c).position,
        final(c).layers@.len() == old(c).layers@.len(),
        forall|j: int|
            0 <= j < old(c).layers@.len() ==> {
                let l1 = old(c).layers@[j];
                let l2 = #[trigger] final(c).layers@[j];
                &&& l2.z == l1.z
                &&& l2.position == l1.position
                &&& l2.tiles == l1.tiles
                &&& (l1.z == z ==> (forall|p: (i32, i32)|
                    #[trigger] l2.visible_tiles@.contains(p) <==> (visible@.contains(p)
                        && l1.spec_owns(p.0 as int, p.1 as int))))
                &&& (l1.z == z ==> (forall|p: (i32, i32)|
                    #[trigger] l2.revealed_tiles@.contains(p) <==> (l1.revealed_tiles@.contains(p)
                        || (visible@.contains(p) && l1.spec_owns(p.0 as int, p.1 as int)))))
                &&& (l1.z != z ==> l2.visible_tiles@ == Seq::<(i32, i32)>::empty()
                    && l2.revealed_tiles@ == l1.revealed_tiles@)
            },
{
    let mut j: usize = 0;
    while j < c.layers.len()
        invariant
            old(c).wf(),
            0 <= j <= old(c).layers@.len(),
            c.position == old(c).position,
            c.layers@.len() == old(c).layers@.len(),
            forall|k: int| j <= k < old(c).layers@.len() ==> #[trigger] c.layers@[k] == old(c).layers@[k],
            forall|k: int|
                0 <= k < j ==> {
                    let l1 = old(c).layers@[k];
                    let l2 = #[trigger] c.layers@[k];
                    &&& l2.wf()
                    &&& l2.z == l1.z
                    &&& l2.position == l1.position
                    &&& l2.tiles == l1.tiles
                    &&& (l1.z == z ==> (forall|p: (i32, i32)|
                        #[trigger] l2.visible_tiles@.contains(p) <==> (visible@.contains(p)
                            && l1.spec_owns(p.0 as int, p.1 as int))))
                    &&& (l1.z == z ==> (forall|p: (i32, i32)|
                        #[trigger] l2.revealed_tiles@.contains(p) <==> (
                        l1.revealed_tiles@.contains(p) || (visible@.contains(p) && l1.spec_owns(
                            p.0 as int,
                            p.1 as int,
                        )))))
                    &&& (l1.z != z ==> l2.visible_tiles@ == Seq::<(i32, i32)>::empty()
                        && l2.revealed_tiles@ == l1.revealed_tiles@)
                },
        decreases old(c).layers@.len() - j,
    {
        let l = &mut c.layers[j];
        layer_apply_visibility(l, z, visible);
        j = j + 1;
    }
    proof {
        assert(final(c).wf());
    }
}

impl WorldMap {
    /// Replaces the visible sets across the whole map: layers at `z` receive
    /// exactly the points of `visible` they own (which also enter their
    /// revealed sets); every other layer's visible set is cleared. Tiles and
    /// the loaded structure are untouched, and after the call every visible
    /// tile is also revealed.
    pub fn apply_visibility(&mut self, z: i32, visible: &Vec<(i32, i32)>)
        requires
            old(self).wf(),
        ensures
            final(self).wf(),
            forall|cx: int, cy: int, zz: i32|
                final(self).spec_loaded(cx, cy, zz) == old(self).spec_loaded(cx, cy, zz),
            forall|x: int, y: int, zz: i32|
                final(self).spec_get_tile(x, y, zz) == old(self).spec_get_tile(x, y, zz),
            forall|cx: int, cy: int, zz: i32|
                #[trigger] old(self).spec_loaded(cx, cy, zz) ==> {
                    let l1 = old(self).spec_layer(cx, cy, zz);
                    let l2 = final(self).spec_layer(cx, cy, zz);
                    &&& l2.z == l1.z
                    &&& l2.position == l1.position
                    &&& l2.tiles == l1.tiles
                    &&& (zz == z ==> (forall|p: (i32, i32)|
                        #[trigger] l2.visible_tiles@.contains(p) <==> (visible@.contains(p)
                            && l1.spec_owns(p.0 as int, p.1 as int))))
                    &&& (zz == z ==> (forall|p: (i32, i32)|
                        #[trigger] l2.revealed_tiles@.contains(p) <==> (
                        l1.revealed_tiles@.contains(p) || (visible@.contains(p) && l1.spec_owns(
                            p.0 as int,
                            p.1 as int,
                        )))))
                    &&& (zz != z ==> l2.visible_tiles@ == Seq::<(i32, i32)>::empty()
                        && l2.revealed_tiles@ == l1.revealed_tiles@)
                },
            // every visible tile is also revealed
            forall|cx: int, cy: int, zz: i32|
                #[trigger] final(self).spec_loaded(cx, cy, zz) ==> (forall|p: (i32, i32)|
                    #[trigger] final(self).spec_layer(cx, cy, zz).visible_tiles@.contains(p)
                        ==> final(self).spec_layer(cx, cy, zz).revealed_tiles@.contains(p)),
    {
        let mut i: usize = 0;
        while i < self.chunks.len()
            invariant
                old(self).wf(),
                0 <= i <= old(self).chunks@.len(),
                self.chunks@.len() == old(self).chunks@.len(),
                forall|k: int|
                    i <= k < old(self).chunks@.len() ==> #[trigger] self.chunks@[k] == old(
                        self,
                    ).chunks@[k],
                forall|k: int|
                    0 <= k < i ==> {
                        let c1 = old(self).chunks@[k];
                        let c2 = #[trigger] self.chunks@[k];
                        &&& c2.wf()
                        &&& c2.position == c1.position
                        &&& c2.layers@.len() == c1.layers@.len()
                        &&& (forall|j: int|
                            0 <= j < c1.layers@.len() ==> {
                                let l1 = c1.layers@[j];
                                let l2 = #[trigger] c2.layers@[j];
                                &&& l2.z == l1.z
                                &&& l2.position == l1.position
                                &&& l2.tiles == l1.tiles
                                &&& (l1.z == z ==> (forall|p: (i32, i32)|
                                    #[trigger] l2.visible_tiles@.contains(p) <==> (
                                    visible@.contains(p) && l1.spec_owns(p.0 as int, p.1 as int))))
                                &&& (l1.z == z ==> (forall|p: (i32, i32)|
                                    #[trigger] l2.revealed_tiles@.contains(p) <==> (
                                    l1.revealed_tiles@.contains(p) || (visible@.contains(p)
                                        && l1.spec_owns(p.0 as int, p.1 as int)))))
                                &&& (l1.z != z ==> l2.visible_tiles@ == Seq::<(i32, i32)>::empty()
                                    && l2.revealed_tiles@ == l1.revealed_tiles@)
                            })
                    },
            decreases old(self).chunks@.len() - i,
        {
            proof {
                assert(self.chunks@[i as int] == old(self).chunks@[i as int]);
            }
            let c = &mut self.chunks[i];
            chunk_apply_visibility(c, z, visible);
            i = i + 1;
        }
        proof {
            assert forall|k: int| 0 <= k < self.chunks@.len() implies (
            #[trigger] self.chunks@[k]).wf() by {}
            assert forall|k1: int, k2: int| 0 <= k1 < k2 < self.chunks@.len() implies (
            #[trigger] self.chunks@[k1]).position != (#[trigger] self.chunks@[k2]).position by {
                assert(self.chunks@[k1].position == old(self).chunks@[k1].position);
                assert(self.chunks@[k2].position == old(self).chunks@[k2].position);
            }
            lemma_same_shape(*old(self), *self);
            assert forall|x: int, y: int, zz: i32|
                final(self).spec_get_tile(x, y, zz) == old(self).spec_get_tile(x, y, zz) by {
                let cx = spec_chunk_coord(x);
                let cy = spec_chunk_coord(y);
                if old(self).spec_loaded(cx, cy, zz) {
                    let ci = old(self).spec_chunk_idx(cx, cy);
                    old(self).lemma_chunk_idx(ci);
                    let li = old(self).chunks@[ci].spec_layer_idx(zz);
                    old(self).chunks@[ci].lemma_layer_idx(li);
                }
            }
        }
    }
}

/// Two maps with the same chunk positions and layer indices agree on
/// loadedness, and their layer lookups land on the same indices.
proof fn lemma_same_shape(m1: WorldMap, m2: WorldMap)
    requires
        m1.wf(),
        m2.wf(),
        m2.chunks@.len() == m1.chunks@.len(),
        forall|i: int|
            0 <= i < m1.chunks@.len() ==> (#[trigger] m2.chunks@[i]).position
                == m1.chunks@[i].position && m2.chunks@[i].layers@.len()
                == m1.chunks@[i].layers@.len() && (forall|j: int|
                0 <= j < m1.chunks@[i].layers@.len() ==> (#[trigger] m2.chunks@[i].layers@[j]).z
                    == m1.chunks@[i].layers@[j].z),
    ensures
        forall|cx: int, cy: int, zz: i32|
            m2.spec_loaded(cx, cy, zz) == m1.spec_loaded(cx, cy, zz),
        forall|cx: int, cy: int, zz: i32|
            #[trigger] m1.spec_loaded(cx, cy, zz) ==> m2.spec_chunk_idx(cx, cy)
                == m1.spec_chunk_idx(cx, cy) && m2.chunks@[m1.spec_chunk_idx(
                cx,
                cy,
            )].spec_layer_idx(zz) == m1.chunks@[m1.spec_chunk_idx(cx, cy)].spec_layer_idx(zz),
{
    assert forall|cx: int, cy: int, zz: i32|
        m2.spec_loaded(cx, cy, zz) == m1.spec_loaded(cx, cy, zz) && (#[trigger] m1.spec_loaded(
        cx,
        cy,
        zz,
    ) ==> m2.spec_chunk_idx(cx, cy) == m1.spec_chunk_idx(cx, cy) && m2.chunks@[m1.spec_chunk_idx(
        cx,
        cy,
    )].spec_layer_idx(zz) == m1.chunks@[m1.spec_chunk_idx(cx, cy)].spec_layer_idx(zz)) by {
        if m1.spec_loaded(cx, cy, zz) {
            let i = m1.spec_chunk_idx(cx, cy);
            m1.lemma_chunk_idx(i);
            m2.lemma_chunk_idx(i);
            let lj = m1.chunks@[i].spec_layer_idx(zz);
            m1.chunks@[i].lemma_layer_idx(lj);
            assert(m2.chunks@[i].layers@[lj].z == zz);
            m2.chunks@[i].lemma_layer_idx(lj);
        }
        if m2.spec_loaded(cx, cy, zz) {
            let i = m2.spec_chunk_idx(cx, cy);
            m2.lemma_chunk_idx(i);
            m1.lemma_chunk_idx(i);
            let lj = m2.chunks@[i].spec_layer_idx(zz);
            m2.chunks@[i].lemma_layer_idx(lj);
            assert(m1.chunks@[i].layers@[lj].z == zz);
            m1.chunks@[i].lemma_layer_idx(lj);
        }
    }
}

impl Default for WorldMap {
    /// A map with the nine chunks around the origin loaded at layer 0.
    fn default() -> (r: WorldMap)
        ensures
            r.wf(),
            forall|cx: int, cy: int|
                -1 <= cx <= 1 && -1 <= cy <= 1 ==> r.spec_loaded(cx, cy, 0),
    {
        let mut map = WorldMap::new();
        let mut x: i32 = -1;
        while x <= 1
            invariant
                map.wf(),
                -1 <= x <= 2,
                forall|cx: int, cy: int| -1 <= cx < x && -1 <= cy <= 1 ==> map.spec_loaded(cx, cy, 0),
            decreases 2 - x,
        {
            let mut y: i32 = -1;
            while y <= 1
                invariant
                    map.wf(),
                    -1 <= x <= 1,
                    -1 <= y <= 2,
                    forall|cx: int, cy: int|
                        -1 <= cx < x && -1 <= cy <= 1 ==> map.spec_loaded(cx, cy, 0),
                    forall|cy: int| -1 <= cy < y ==> map.spec_loaded(x as int, cy, 0),
                decreases 2 - y,
            {
                map.load_chunk(x, y, 0);
                y = y + 1;
            }
            x = x + 1;
        }
        map
    }
}

} // verus!
