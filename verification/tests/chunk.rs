use sparse_tilemap::map::chunk::Chunk;
use sparse_tilemap::map::coords::{ChunkPos, ChunkTilePos, Dimensions, EntityHandle};
use sparse_tilemap::map::layer::LayerChunkData;

const GROUND: u32 = 1;
const MARKERS: u32 = 2;
const MISSING: u32 = 4;

fn at(x: u32, y: u32) -> ChunkTilePos {
    ChunkTilePos::new(x, y)
}

fn two_layer_chunk() -> Chunk {
    let mut chunk = Chunk::new(ChunkPos::new(1, 2), Dimensions::new(3, 3));
    chunk.add_layer(GROUND, LayerChunkData::new_dense_uniform_layer(3, 3, 7));
    chunk.add_layer(MARKERS, LayerChunkData::new_sparse_layer_empty(Dimensions::new(3, 3)));
    chunk
}

#[test]
fn new_chunk_has_its_position_and_no_layers() {
    let chunk = Chunk::new(ChunkPos::new(-1, 4), Dimensions::new(8, 6));
    assert_eq!(chunk.get_chunk_pos(), ChunkPos::new(-1, 4));
    assert_eq!(chunk.get_chunk_dimensions(), Dimensions::new(8, 6));
    assert!(!chunk.has_layer(GROUND));
    assert_eq!(chunk.get_tile_data(GROUND, at(0, 0)), None);
    assert_eq!(chunk.get_tile_entity(GROUND, at(0, 0)), None);
}

#[test]
fn chunk_reads_each_layer_by_its_bits() {
    let chunk = two_layer_chunk();
    assert!(chunk.has_layer(GROUND));
    assert!(chunk.has_layer(MARKERS));
    assert!(!chunk.has_layer(MISSING));
    assert_eq!(chunk.get_tile_data(GROUND, at(2, 2)), Some(&7));
    assert_eq!(chunk.get_tile_data(GROUND, at(3, 0)), None);
    assert_eq!(chunk.get_tile_data(MARKERS, at(2, 2)), None);
    assert_eq!(chunk.get_tile_data(MISSING, at(0, 0)), None);
}

#[test]
fn chunk_writes_reach_one_layer_only() {
    let mut chunk = two_layer_chunk();
    chunk.set_tile_data(MARKERS, at(1, 1), 99);
    assert_eq!(chunk.get_tile_data(MARKERS, at(1, 1)), Some(&99));
    assert_eq!(chunk.get_tile_data(GROUND, at(1, 1)), Some(&7));
    chunk.set_tile_data(GROUND, at(1, 1), 8);
    assert_eq!(chunk.get_tile_data(GROUND, at(1, 1)), Some(&8));
    assert_eq!(chunk.get_tile_data(MARKERS, at(1, 1)), Some(&99));
    assert_eq!(chunk.get_tile_data(GROUND, at(0, 1)), Some(&7));
}

#[test]
fn chunk_write_to_a_layer_it_lacks_changes_nothing() {
    let mut chunk = two_layer_chunk();
    chunk.set_tile_data(MISSING, at(1, 1), 99);
    chunk.set_tile_entity(MISSING, at(1, 1), EntityHandle::from_bits(5));
    assert!(!chunk.has_layer(MISSING));
    assert_eq!(chunk.get_tile_data(MISSING, at(1, 1)), None);
    assert_eq!(chunk.get_tile_entity(MISSING, at(1, 1)), None);
    assert_eq!(chunk.get_tile_data(GROUND, at(1, 1)), Some(&7));
    assert_eq!(chunk.get_tile_data(MARKERS, at(1, 1)), None);
}

#[test]
fn chunk_overwrite_keeps_the_second_value() {
    let mut chunk = two_layer_chunk();
    chunk.set_tile_data(MARKERS, at(0, 2), 1);
    chunk.set_tile_data(MARKERS, at(0, 2), 2);
    assert_eq!(chunk.get_tile_data(MARKERS, at(0, 2)), Some(&2));
    assert_eq!(chunk.get_tile_data(MARKERS, at(2, 0)), None);
}

#[test]
fn chunk_entities_are_kept_per_layer() {
    let mut chunk = two_layer_chunk();
    let entity = EntityHandle::from_bits(77);
    chunk.set_tile_entity(GROUND, at(0, 0), entity);
    assert_eq!(chunk.get_tile_entity(GROUND, at(0, 0)), Some(entity));
    assert_eq!(chunk.get_tile_entity(MARKERS, at(0, 0)), None);
    assert_eq!(chunk.get_tile_entity(GROUND, at(1, 0)), None);
    assert_eq!(chunk.get_tile_data(GROUND, at(0, 0)), Some(&7));
}

#[test]
fn adding_a_layer_again_replaces_it() {
    let mut chunk = two_layer_chunk();
    chunk.set_tile_data(MARKERS, at(1, 1), 99);
    chunk.add_layer(MARKERS, LayerChunkData::new_dense_uniform_layer(3, 3, 1));
    assert_eq!(chunk.get_tile_data(MARKERS, at(1, 1)), Some(&1));
    assert_eq!(chunk.get_tile_data(MARKERS, at(0, 0)), Some(&1));
    assert_eq!(chunk.get_tile_data(GROUND, at(1, 1)), Some(&7));
    assert_eq!(chunk.get_chunk_dimensions(), Dimensions::new(3, 3));
}

#[test]
fn chunk_counts_each_layer_once() {
    let mut chunk = Chunk::new(ChunkPos::new(0, 0), Dimensions::new(3, 3));
    assert_eq!(chunk.layer_count(), 0);
    chunk.add_layer(GROUND, LayerChunkData::new_dense_uniform_layer(3, 3, 7));
    assert_eq!(chunk.layer_count(), 1);
    chunk.add_layer(MARKERS, LayerChunkData::new_sparse_layer_empty(Dimensions::new(3, 3)));
    assert_eq!(chunk.layer_count(), 2);
    chunk.add_layer(GROUND, LayerChunkData::new_dense_default_layer(3, 3));
    assert_eq!(chunk.layer_count(), 2);
    assert_eq!(chunk.get_tile_data(GROUND, at(0, 0)), Some(&0));
}
