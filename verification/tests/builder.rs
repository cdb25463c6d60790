use sparse_tilemap::map::coords::{ChunkTilePos, Dimensions, TileData};
use sparse_tilemap::tilemap_builder::{TilemapLayer, TilemapLayerError};

const A: TileData = 1;
const B: TileData = 2;
const C: TileData = 3;
const D: TileData = 4;

fn at(x: u32, y: u32) -> ChunkTilePos {
    ChunkTilePos::new(x, y)
}

#[test]
fn layer_from_rows_reads_back_in_row_and_column_order() {
    let built = TilemapLayer::new_dense_from_vecs(&vec![vec![A, B], vec![C, D]]);
    let layer = match built {
        Ok(layer) => layer,
        Err(_) => panic!("the rows make a rectangle"),
    };
    assert_eq!(layer.dimensions(), Dimensions::new(2, 2));
    assert_eq!(layer.get_tile_data(at(0, 0)), Some(&A));
    assert_eq!(layer.get_tile_data(at(1, 0)), Some(&B));
    assert_eq!(layer.get_tile_data(at(0, 1)), Some(&C));
    assert_eq!(layer.get_tile_data(at(1, 1)), Some(&D));
    assert_eq!(layer.get_tile_data(at(2, 1)), None);
}

#[test]
fn ragged_rows_are_refused() {
    let short_second = TilemapLayer::new_dense_from_vecs(&vec![vec![A, B], vec![C]]);
    assert!(matches!(short_second, Err(TilemapLayerError::RaggedRows)));
    let long_second = TilemapLayer::new_dense_from_vecs(&vec![vec![A], vec![B, C]]);
    assert!(matches!(long_second, Err(TilemapLayerError::RaggedRows)));
    let same_count = TilemapLayer::new_dense_from_vecs(&vec![vec![A, B], vec![C], vec![D, A, B]]);
    assert!(matches!(same_count, Err(TilemapLayerError::RaggedRows)));
    let empty_first = TilemapLayer::new_dense_from_vecs(&vec![vec![], vec![A]]);
    assert!(matches!(empty_first, Err(TilemapLayerError::RaggedRows)));
}

#[test]
fn no_rows_are_refused() {
    let built = TilemapLayer::new_dense_from_vecs(&Vec::new());
    assert!(matches!(built, Err(TilemapLayerError::NoRows)));
}

#[test]
fn sparse_empty_layer_records_its_dimensions() {
    let layer = TilemapLayer::new_sparse_empty(25, 10);
    assert_eq!(layer.dimensions(), Dimensions::new(25, 10));
    for y in 0..10 {
        for x in 0..25 {
            assert_eq!(layer.get_tile_data(at(x, y)), None);
        }
    }
}

#[test]
fn dense_default_and_uniform_layers_fill_the_grid() {
    let layer = TilemapLayer::new_dense_default(4, 3);
    assert_eq!(layer.dimensions(), Dimensions::new(4, 3));
    assert_eq!(layer.get_tile_data(at(3, 2)), Some(&0));
    assert_eq!(layer.get_tile_data(at(2, 3)), None);

    let layer = TilemapLayer::new_dense_uniform(3, 4, 8);
    assert_eq!(layer.dimensions(), Dimensions::new(3, 4));
    assert_eq!(layer.get_tile_data(at(2, 3)), Some(&8));
    assert_eq!(layer.get_tile_data(at(3, 2)), None);
}

#[test]
fn built_layer_becomes_storage() {
    let layer = TilemapLayer::new_dense_uniform(2, 2, 6);
    let mut storage = layer.into_layer_types();
    assert_eq!(storage.get_dimensions(), Dimensions::new(2, 2));
    storage.set_tile_data(at(1, 1), 7);
    assert_eq!(storage.get_tile_data(at(1, 1)), Some(&7));
    assert_eq!(storage.get_tile_data(at(0, 0)), Some(&6));
}
