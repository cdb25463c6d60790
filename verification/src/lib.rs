//! Chunked tile storage for very large two-dimensional and hexagonal tile maps.
//!
//! A map is cut into chunks of a fixed size. Every chunk holds one storage per
//! named layer, and each storage is either dense (a grid with a value in every
//! cell) or sparse (a hash table that holds only the tiles that were set).
//! A manager resolves a map-wide cell to its chunk and the position inside
//! that chunk, and reads or writes tile data and entity handles there.

pub mod map;
pub mod tilemap_builder;
pub mod tilemap_manager;
