//! Reading and writing the tiles of a map by their global cells.

pub mod errors;
pub mod manager;

pub use errors::TilemapManagerError;
pub use manager::TilemapManager;
