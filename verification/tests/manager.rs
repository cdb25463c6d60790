use sparse_tilemap::map::chunk::Chunk;
use sparse_tilemap::map::coords::{ChunkPos, Dimensions, EntityHandle, GlobalCell};
use sparse_tilemap::map::layer::{LayerChunkData, MapLayer};
use sparse_tilemap::map::tilemap::Tilemap;
use sparse_tilemap::tilemap_manager::{TilemapManager, TilemapManagerError};

const BASE: u32 = 1;
const SPARSE: u32 = 2;

enum Layers {
    Base,
    Sparse,
}

impl MapLayer for Layers {
    fn spec_to_bits(&self) -> u32 {
        self.to_bits()
    }

    fn spec_all_bits() -> u32 {
        Self::all_bits()
    }

    fn to_bits(&self) -> u32 {
        match self {
            Layers::Base => BASE,
            Layers::Sparse => SPARSE,
        }
    }

    fn all_bits() -> u32 {
        BASE | SPARSE
    }
}

fn map_entity() -> EntityHandle {
    EntityHandle::from_bits(1000)
}

fn chunk_at(x: i32, y: i32) -> Chunk {
    let mut chunk = Chunk::new(ChunkPos::new(x, y), Dimensions::new(2, 2));
    chunk.add_layer(BASE, LayerChunkData::new_dense_uniform_layer(2, 2, 5));
    chunk.add_layer(SPARSE, LayerChunkData::new_sparse_layer_empty(Dimensions::new(2, 2)));
    chunk
}

/// A map of 5 by 3 tiles in chunks of 2 by 2: three columns and two rows of
/// chunks, all in place but the one at (2, 1).
fn sample_map() -> Tilemap {
    let mut tilemap = Tilemap::new(map_entity(), Dimensions::new(5, 3), Dimensions::new(2, 2));
    for y in 0..2 {
        for x in 0..3 {
            if !(x == 2 && y == 1) {
                assert_eq!(tilemap.insert_chunk(chunk_at(x, y)), Ok(()));
            }
        }
    }
    tilemap
}

fn manager_for(layer: Layers) -> TilemapManager {
    let mut manager = TilemapManager::new();
    manager.set_tilemap_entity(map_entity());
    manager.set_layer(layer);
    manager
}

#[test]
fn new_manager_has_no_map_and_the_default_layer() {
    let manager = TilemapManager::new();
    assert_eq!(manager.tilemap_entity(), None);
    assert_eq!(manager.layer(), 1);
}

#[test]
fn manager_remembers_map_and_layer() {
    let mut manager = TilemapManager::new();
    manager.set_tilemap_entity(map_entity());
    manager.set_layer(Layers::Sparse);
    assert_eq!(manager.tilemap_entity(), Some(map_entity()));
    assert_eq!(manager.layer(), SPARSE);
    manager.set_layer(&Layers::Base);
    assert_eq!(manager.layer(), BASE);
    manager.set_layer_bits(8);
    assert_eq!(manager.layer(), 8);
    assert_eq!(manager.tilemap_entity(), Some(map_entity()));
}

#[test]
fn dimensions_are_those_of_the_map() {
    let tilemap = sample_map();
    let manager = manager_for(Layers::Base);
    assert_eq!(manager.dimensions(&tilemap), Ok(Dimensions::new(5, 3)));
}

#[test]
fn manager_without_the_map_resolves_nothing() {
    let mut tilemap = sample_map();
    let unset = TilemapManager::new();
    assert_eq!(unset.dimensions(&tilemap), Err(TilemapManagerError::InvalidChunkPos));
    let mut other = TilemapManager::new();
    other.set_tilemap_entity(EntityHandle::from_bits(1));
    let cell = GlobalCell::new(0, 0);
    assert_eq!(other.dimensions(&tilemap), Err(TilemapManagerError::InvalidChunkPos));
    assert_eq!(other.get_tile_data(&tilemap, cell), Err(TilemapManagerError::InvalidChunkPos));
    assert_eq!(other.get_tile_entity(&tilemap, cell), Err(TilemapManagerError::InvalidChunkPos));
    assert_eq!(
        other.set_tile_data(&mut tilemap, cell, 9),
        Err(TilemapManagerError::InvalidChunkPos)
    );
    assert_eq!(
        other.set_tile_entity(&mut tilemap, cell, EntityHandle::from_bits(2)),
        Err(TilemapManagerError::InvalidChunkPos)
    );
    let manager = manager_for(Layers::Base);
    assert_eq!(manager.get_tile_data(&tilemap, cell), Ok(5));
    assert_eq!(
        manager.get_tile_entity(&tilemap, cell),
        Err(TilemapManagerError::TileEntityDoesNotExist)
    );
}

#[test]
fn cell_without_a_chunk_is_an_invalid_chunk_pos() {
    let tilemap = sample_map();
    let manager = manager_for(Layers::Base);
    for cell in [
        GlobalCell::new(6, 0),
        GlobalCell::new(0, 4),
        GlobalCell::new(-1, 0),
        GlobalCell::new(0, -1),
        GlobalCell::new(i32::MIN, i32::MAX),
    ] {
        assert_eq!(
            manager.get_tile_data(&tilemap, cell),
            Err(TilemapManagerError::InvalidChunkPos)
        );
        assert_eq!(
            manager.get_tile_entity(&tilemap, cell),
            Err(TilemapManagerError::InvalidChunkPos)
        );
    }
}

#[test]
fn unset_sparse_cell_has_no_tile_data() {
    let tilemap = sample_map();
    let manager = manager_for(Layers::Sparse);
    assert_eq!(
        manager.get_tile_data(&tilemap, GlobalCell::new(3, 1)),
        Err(TilemapManagerError::TileDataDoesNotExist)
    );
    assert_eq!(
        manager.get_tile_data(&tilemap, GlobalCell::new(6, 1)),
        Err(TilemapManagerError::InvalidChunkPos)
    );
}

#[test]
fn empty_place_is_a_missing_chunk_entity() {
    let mut tilemap = sample_map();
    let manager = manager_for(Layers::Base);
    let cell = GlobalCell::new(4, 2);
    assert_eq!(
        manager.get_tile_data(&tilemap, cell),
        Err(TilemapManagerError::ChunkEntityDoesNotExist)
    );
    assert_eq!(
        manager.get_tile_entity(&tilemap, cell),
        Err(TilemapManagerError::ChunkEntityDoesNotExist)
    );
    assert_eq!(
        manager.set_tile_data(&mut tilemap, cell, 1),
        Err(TilemapManagerError::ChunkEntityDoesNotExist)
    );
    assert_eq!(
        manager.set_tile_entity(&mut tilemap, cell, EntityHandle::from_bits(3)),
        Err(TilemapManagerError::ChunkEntityDoesNotExist)
    );
    assert_eq!(tilemap.insert_chunk(chunk_at(2, 1)), Ok(()));
    assert_eq!(manager.get_tile_data(&tilemap, cell), Ok(5));
}

#[test]
fn reads_and_writes_reach_the_right_chunk() {
    let mut tilemap = sample_map();
    let manager = manager_for(Layers::Base);
    for y in 0..2 {
        for x in 0..5 {
            assert_eq!(manager.get_tile_data(&tilemap, GlobalCell::new(x, y)), Ok(5));
        }
    }
    assert_eq!(manager.set_tile_data(&mut tilemap, GlobalCell::new(3, 1), 42), Ok(()));
    for y in 0..2 {
        for x in 0..5 {
            let expected = if x == 3 && y == 1 { 42 } else { 5 };
            assert_eq!(manager.get_tile_data(&tilemap, GlobalCell::new(x, y)), Ok(expected));
        }
    }
    match tilemap.get_chunk(ChunkPos::new(1, 0)) {
        Ok(chunk) => {
            assert_eq!(
                chunk.get_tile_data(
                    BASE,
                    sparse_tilemap::map::coords::ChunkTilePos::new(1, 1)
                ),
                Some(&42)
            );
        }
        Err(_) => panic!("the chunk is in place"),
    }
}

#[test]
fn writes_go_to_the_selected_layer() {
    let mut tilemap = sample_map();
    let cell = GlobalCell::new(1, 2);
    let sparse = manager_for(Layers::Sparse);
    let base = manager_for(Layers::Base);
    assert_eq!(sparse.set_tile_data(&mut tilemap, cell, 10), Ok(()));
    assert_eq!(sparse.get_tile_data(&tilemap, cell), Ok(10));
    assert_eq!(base.get_tile_data(&tilemap, cell), Ok(5));
    assert_eq!(sparse.set_tile_data(&mut tilemap, cell, 20), Ok(()));
    assert_eq!(sparse.get_tile_data(&tilemap, cell), Ok(20));
    assert_eq!(
        sparse.get_tile_data(&tilemap, GlobalCell::new(0, 2)),
        Err(TilemapManagerError::TileDataDoesNotExist)
    );
}

#[test]
fn layer_that_the_chunk_lacks_holds_nothing() {
    let mut tilemap = sample_map();
    let mut manager = manager_for(Layers::Base);
    manager.set_layer_bits(64);
    let cell = GlobalCell::new(0, 0);
    assert_eq!(
        manager.get_tile_data(&tilemap, cell),
        Err(TilemapManagerError::TileDataDoesNotExist)
    );
    assert_eq!(manager.set_tile_data(&mut tilemap, cell, 1), Ok(()));
    assert_eq!(
        manager.get_tile_data(&tilemap, cell),
        Err(TilemapManagerError::TileDataDoesNotExist)
    );
    assert_eq!(
        manager.get_tile_entity(&tilemap, cell),
        Err(TilemapManagerError::TileEntityDoesNotExist)
    );
}

#[test]
fn tile_entities_are_set_and_read_by_cell() {
    let mut tilemap = sample_map();
    let manager = manager_for(Layers::Base);
    let cell = GlobalCell::new(2, 1);
    let entity = EntityHandle::from_bits(4242);
    assert_eq!(
        manager.get_tile_entity(&tilemap, cell),
        Err(TilemapManagerError::TileEntityDoesNotExist)
    );
    assert_eq!(manager.set_tile_entity(&mut tilemap, cell, entity), Ok(()));
    assert_eq!(manager.get_tile_entity(&tilemap, cell), Ok(entity));
    assert_eq!(
        manager.get_tile_entity(&tilemap, GlobalCell::new(3, 1)),
        Err(TilemapManagerError::TileEntityDoesNotExist)
    );
    assert_eq!(manager.get_tile_data(&tilemap, cell), Ok(5));
    let other = EntityHandle::from_bits(4243);
    assert_eq!(manager.set_tile_entity(&mut tilemap, cell, other), Ok(()));
    assert_eq!(manager.get_tile_entity(&tilemap, cell), Ok(other));
}

#[test]
fn chunk_outside_the_grid_is_refused() {
    let mut tilemap = sample_map();
    assert_eq!(
        tilemap.insert_chunk(chunk_at(3, 0)),
        Err(TilemapManagerError::InvalidChunkPos)
    );
    assert_eq!(
        tilemap.insert_chunk(chunk_at(0, 2)),
        Err(TilemapManagerError::InvalidChunkPos)
    );
    assert_eq!(
        tilemap.insert_chunk(chunk_at(-1, 0)),
        Err(TilemapManagerError::InvalidChunkPos)
    );
    assert!(matches!(
        tilemap.get_chunk(ChunkPos::new(3, 0)),
        Err(TilemapManagerError::InvalidChunkPos)
    ));
    assert!(matches!(
        tilemap.get_chunk(ChunkPos::new(2, 1)),
        Err(TilemapManagerError::ChunkEntityDoesNotExist)
    ));
    assert!(tilemap.get_chunk(ChunkPos::new(2, 0)).is_ok());
}

#[test]
fn map_reports_what_it_was_made_with() {
    let tilemap = Tilemap::new(map_entity(), Dimensions::new(25, 10), Dimensions::new(5, 5));
    assert_eq!(tilemap.entity(), map_entity());
    assert_eq!(tilemap.dimensions(), Dimensions::new(25, 10));
    assert_eq!(tilemap.max_chunk_size(), Dimensions::new(5, 5));
    assert!(matches!(
        tilemap.get_chunk(ChunkPos::new(4, 1)),
        Err(TilemapManagerError::ChunkEntityDoesNotExist)
    ));
    assert!(matches!(
        tilemap.get_chunk(ChunkPos::new(5, 1)),
        Err(TilemapManagerError::InvalidChunkPos)
    ));
    assert!(matches!(
        tilemap.get_chunk(ChunkPos::new(4, 2)),
        Err(TilemapManagerError::InvalidChunkPos)
    ));
}

#[test]
fn map_without_tiles_has_no_place_for_a_chunk() {
    let mut tilemap = Tilemap::new(map_entity(), Dimensions::new(0, 0), Dimensions::new(4, 4));
    assert_eq!(
        tilemap.insert_chunk(Chunk::new(ChunkPos::new(0, 0), Dimensions::new(4, 4))),
        Err(TilemapManagerError::InvalidChunkPos)
    );
    assert_eq!(
        tilemap.get_tile_data(BASE, GlobalCell::new(0, 0)),
        Err(TilemapManagerError::InvalidChunkPos)
    );
}

#[test]
fn each_error_has_its_message() {
    assert_eq!(
        TilemapManagerError::InvalidChunkPos.message(),
        "A Chunk does not exist for the given ChunkPos"
    );
    assert_eq!(
        TilemapManagerError::ChunkEntityDoesNotExist.message(),
        "A Chunk entity does not exist for the given ChunkPos"
    );
    assert_eq!(
        TilemapManagerError::TileEntityDoesNotExist.message(),
        "An Entity does not exist for the given ChunkCell"
    );
    assert_eq!(
        TilemapManagerError::TileDataDoesNotExist.message(),
        "TileData does not exist for the given ChunkCell"
    );
}

#[test]
fn map_is_complete_once_every_place_has_its_chunk() {
    let mut tilemap = sample_map();
    assert!(!tilemap.is_complete());
    assert_eq!(tilemap.insert_chunk(chunk_at(2, 1)), Ok(()));
    assert!(tilemap.is_complete());
    let manager = manager_for(Layers::Base);
    for y in 0..3 {
        for x in 0..5 {
            assert_eq!(manager.get_tile_data(&tilemap, GlobalCell::new(x, y)), Ok(5));
        }
    }
    let empty = Tilemap::new(map_entity(), Dimensions::new(0, 7), Dimensions::new(2, 2));
    assert!(empty.is_complete());
    let bare = Tilemap::new(map_entity(), Dimensions::new(1, 1), Dimensions::new(2, 2));
    assert!(!bare.is_complete());
}
