//! Coordinate conversion and chunk-store behavior.

use adventure_core::coords::{chunk_coord, local_coord, CHUNK_SIZE};
use adventure_core::map::{Chunk, WorldMap};
use adventure_core::structure::{Door, Structure};
use adventure_core::tile::TileKind;

#[test]
fn chunk_and_local_coords_for_positive_values() {
    assert_eq!(chunk_coord(0), 0);
    assert_eq!(local_coord(0), 0);
    assert_eq!(chunk_coord(31), 0);
    assert_eq!(local_coord(31), 31);
    assert_eq!(chunk_coord(32), 1);
    assert_eq!(local_coord(32), 0);
    assert_eq!(chunk_coord(65), 2);
    assert_eq!(local_coord(65), 1);
}

#[test]
fn negative_coordinates_wrap_into_previous_chunk() {
    // world x = -1 maps to chunk -1, local 31: Euclidean, not truncating
    assert_eq!(chunk_coord(-1), -1);
    assert_eq!(local_coord(-1), 31);
    assert_eq!(chunk_coord(-32), -1);
    assert_eq!(local_coord(-32), 0);
    assert_eq!(chunk_coord(-33), -2);
    assert_eq!(local_coord(-33), 31);
}

#[test]
fn round_trip_recovers_world_coordinate() {
    for w in [-100i32, -33, -32, -1, 0, 1, 31, 32, 100] {
        let c = chunk_coord(w) as i64;
        let l = local_coord(w) as i64;
        assert_eq!(c * CHUNK_SIZE as i64 + l, w as i64);
        assert!((0..CHUNK_SIZE as i64).contains(&l));
    }
}

#[test]
fn get_tile_requeries_negative_coordinates() {
    let mut map = WorldMap::new();
    map.load_chunk(-1, -1, 0);
    // world (-1, -1) is local (31, 31) of chunk (-1, -1): plain grass
    let tile = map.get_tile((-1, -1, 0)).expect("chunk was loaded");
    assert_eq!(tile.kind, TileKind::Grass);
    assert!(tile.structure.is_none());
    // the generated wall sits at the chunk corner, world (-32, -32)
    let corner = map.get_tile((-32, -32, 0)).expect("chunk was loaded");
    assert!(matches!(corner.structure, Some(Structure::Wall(_))));
}

#[test]
fn generated_pattern_and_walkability() {
    let mut map = WorldMap::new();
    map.load_chunk(0, 0, 0);
    let wall = map.get_tile((0, 0, 0)).unwrap();
    assert!(!wall.walkable());
    assert!(wall.block_sight());
    let water = map.get_tile((1, 1, 0)).unwrap();
    assert_eq!(water.kind, TileKind::Water);
    assert!(water.walkable());
    let water2 = map.get_tile((2, 2, 0)).unwrap();
    assert_eq!(water2.kind, TileKind::Water);
    let grass = map.get_tile((3, 4, 0)).unwrap();
    assert_eq!(grass.kind, TileKind::Grass);
    assert!(grass.walkable());
    assert!(!grass.block_sight());
}

#[test]
fn unloaded_lookups_return_nothing() {
    let mut map = WorldMap::new();
    assert!(map.get_tile((0, 0, 0)).is_none());
    map.load_chunk(0, 0, 0);
    assert!(map.get_tile((0, 0, 1)).is_none());
    assert!(map.get_tile((-1, 0, 0)).is_none());
}

#[test]
fn load_chunk_twice_is_idempotent() {
    let mut map = WorldMap::new();
    map.load_chunk(0, 0, 0);
    // place a door after the first load
    let placed = map.add_structure_at((5, 5, 0), Structure::Door(Door::new()));
    assert!(placed);
    // a repeated load must not reset or regenerate existing tile content
    map.load_chunk(0, 0, 0);
    let tile = map.get_tile((5, 5, 0)).unwrap();
    assert!(matches!(tile.structure, Some(Structure::Door(_))));
    assert_eq!(map.chunks.len(), 1);
    // adding a missing layer keeps the existing layer intact
    map.load_chunk(0, 0, 3);
    let tile = map.get_tile((5, 5, 0)).unwrap();
    assert!(matches!(tile.structure, Some(Structure::Door(_))));
    assert!(map.get_tile((5, 5, 3)).is_some());
}

#[test]
fn load_around_fills_the_neighbourhood() {
    let mut map = WorldMap::new();
    map.load_around((0, 0, 0));
    // Chebyshev distance 2 in chunks: all of chunk (-2,-2) to (2,2)
    assert!(map.get_tile((-64, -64, 0)).is_some());
    assert!(map.get_tile((95, 95, 0)).is_some());
    assert!(map.get_tile((96, 0, 0)).is_none());
    assert_eq!(map.chunks.len(), 25);
}

#[test]
fn chunk_world_position_and_local_conversion() {
    let chunk = Chunk::new(-1, 2, 0);
    assert_eq!(chunk.get_chunk_world_position(), (-32, 64));
    assert_eq!(Chunk::convert_to_local_chunk_coordinates(-1, 33), (31, 1));
    assert_eq!(WorldMap::convert_to_chunk_coordinates(-1, 33), (-1, 1));
    let tile = chunk.get_tile((-31, 65, 0)).unwrap();
    assert_eq!(tile.kind, TileKind::Water);
    assert!(chunk.get_tile((-31, 65, 4)).is_none());
}
