//! The layers from which a map is built.
//!
//! A layer of the builder holds the tile data of one layer of the whole
//! map, before the map is cut into chunks. It is made from rows of data,
//! from one value for every tile, or empty, and it is checked when it is
//! made: rows of unequal length never become a layer.

use crate::map::coords::{ChunkTilePos, Dimensions, TileData};
use crate::map::dense_grid::max_cells;
use crate::map::layer::{
    dense_dimensions, dense_tiles, is_rectangular, rows_are_rectangular, LayerTypes,
};
use crate::map::tile_table::TileTable;
use vstd::prelude::*;

verus! {

/// Why rows of tile data cannot make a layer.
#[derive(Clone, Copy, Debug, PartialEq, Eq, Structural)]
pub enum TilemapLayerError {
    /// There are no rows.
    NoRows,
    /// Not all rows have the length of the first.
    RaggedRows,
}

/// The error that keeps `rows` from making a layer, if there is one.
pub open spec fn rows_error(rows: Seq<Vec<TileData>>) -> Option<TilemapLayerError> {
    if rows.len() == 0 {
        Some(TilemapLayerError::NoRows)
    } else if !is_rectangular(rows) {
        Some(TilemapLayerError::RaggedRows)
    } else {
        None
    }
}

/// The tile data of one layer of a whole map.
pub struct TilemapLayer {
    data: LayerTypes,
}

impl TilemapLayer {
    /// Whether the layer is dense.
    pub closed spec fn is_dense(&self) -> bool {
        self.data.is_dense()
    }

    /// The dimensions of the layer.
    pub closed spec fn spec_dimensions(&self) -> Dimensions {
        self.data.spec_dimensions()
    }

    /// The tiles that hold data, each with its data.
    pub closed spec fn tiles(&self) -> Map<ChunkTilePos, TileData> {
        self.data.tiles()
    }

    /// A sparse layer of `width` by `height` tiles without tile data. A
    /// count beyond 32 bits is cut to its low 32 bits.
    pub fn new_sparse_empty(width: usize, height: usize) -> (layer: TilemapLayer)
        ensures
            !layer.is_dense(),
            layer.spec_dimensions() == (Dimensions { x: width as u32, y: height as u32 }),
            layer.tiles() == Map::<ChunkTilePos, TileData>::empty(),
    {
        let dimensions = Dimensions::new(
            #[verifier::truncate]
            (width as u32),
            #[verifier::truncate]
            (height as u32),
        );
        let layer = TilemapLayer { data: LayerTypes::Sparse(TileTable::new(), dimensions) };
        proof {
            assert(layer.tiles() =~= Map::<ChunkTilePos, TileData>::empty());
        }
        layer
    }

    /// A dense layer of `width` by `height` tiles that all hold the default
    /// data, zero.
    pub fn new_dense_default(width: usize, height: usize) -> (layer: TilemapLayer)
        requires
            width * height <= max_cells(),
        ensures
            layer.is_dense(),
            layer.spec_dimensions() == dense_dimensions(width, height),
            layer.tiles() == dense_tiles(width, height, |pos: ChunkTilePos| 0u64),
    {
        TilemapLayer { data: LayerTypes::new_dense_default(width, height) }
    }

    /// A dense layer of `width` by `height` tiles that all hold `tile_data`.
    pub fn new_dense_uniform(width: usize, height: usize, tile_data: TileData) -> (layer:
        TilemapLayer)
        requires
            width * height <= max_cells(),
        ensures
            layer.is_dense(),
            layer.spec_dimensions() == dense_dimensions(width, height),
            layer.tiles() == dense_tiles(width, height, |pos: ChunkTilePos| tile_data),
    {
        TilemapLayer { data: LayerTypes::new_dense_uniform(width, height, tile_data) }
    }

    /// A dense layer built from rows of tile data: the tile at `(x, y)`
    /// holds `tile_data[y][x]`.
    ///
    /// The rows are checked first. Without rows there is no layer, and rows
    /// of unequal length are refused: nothing is cut off and nothing is
    /// filled in.
    pub fn new_dense_from_vecs(tile_data: &Vec<Vec<TileData>>) -> (built: Result<
        TilemapLayer,
        TilemapLayerError,
    >)
        ensures
            match built {
                Ok(layer) => rows_error(tile_data@) is None && layer.is_dense()
                    && layer.spec_dimensions() == dense_dimensions(
                    tile_data@[0]@.len() as usize,
                    tile_data@.len() as usize,
                ) && layer.tiles() == dense_tiles(
                    tile_data@[0]@.len() as usize,
                    tile_data@.len() as usize,
                    |pos: ChunkTilePos| tile_data@[pos.y as int]@[pos.x as int],
                ),
                Err(error) => rows_error(tile_data@) == Some(error),
            },
    {
        if tile_data.len() == 0 {
            return Err(TilemapLayerError::NoRows);
        }
        if !rows_are_rectangular(tile_data) {
            return Err(TilemapLayerError::RaggedRows);
        }
        Ok(TilemapLayer { data: LayerTypes::new_dense_from_vecs(tile_data) })
    }

    /// The dimensions of the layer.
    pub fn dimensions(&self) -> (dimensions: Dimensions)
        ensures
            dimensions == self.spec_dimensions(),
    {
        self.data.get_dimensions()
    }

    /// The data of the tile at `pos`, if the layer holds any there.
    pub fn get_tile_data(&self, pos: ChunkTilePos) -> (tile: Option<&TileData>)
        ensures
            tile == (if self.tiles().contains_key(pos) {
                Some(&self.tiles()[pos])
            } else {
                None
            }),
    {
        self.data.get_tile_data(pos)
    }

    /// The storage that the layer was built into.
    pub fn into_layer_types(self) -> (data: LayerTypes)
        ensures
            data.is_dense() == self.is_dense(),
            data.spec_dimensions() == self.spec_dimensions(),
            data.tiles() == self.tiles(),
    {
        self.data
    }
}

} // verus!
