//! The storage side of a tile map: coordinates, layers and chunks.

pub mod chunk;
pub mod coords;
pub mod dense_grid;
pub mod layer;
pub mod layer_bits;
pub mod tile_table;
pub mod tilemap;
