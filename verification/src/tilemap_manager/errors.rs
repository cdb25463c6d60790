//! The errors of the tilemap manager.

use bevy::ecs::query::QueryEntityError;
use vstd::prelude::*;

verus! {

/// Makes bevy's `QueryEntityError` known to Verus, as a type whose inside
/// it does not see.
#[verifier::external_type_specification]
#[verifier::external_body]
pub struct ExQueryEntityError<'w>(QueryEntityError<'w>);

/// Why the tilemap manager could not read or write a tile.
#[derive(Clone, Copy, Debug, PartialEq, Eq, Structural)]
pub enum TilemapManagerError {
    /// The map has no chunk at the chunk position of the cell.
    InvalidChunkPos,
    /// The map has a place for the chunk, but the chunk is not there.
    ChunkEntityDoesNotExist,
    /// The chunk was found, but the tile has no entity.
    TileEntityDoesNotExist,
    /// The chunk was found, but the tile holds no data.
    TileDataDoesNotExist,
}

impl TilemapManagerError {
    /// The text that describes the error.
    pub open spec fn spec_message(self) -> Seq<char> {
        match self {
            TilemapManagerError::InvalidChunkPos => {
                "A Chunk does not exist for the given ChunkPos"@
            },
            TilemapManagerError::ChunkEntityDoesNotExist => {
                "A Chunk entity does not exist for the given ChunkPos"@
            },
            TilemapManagerError::TileEntityDoesNotExist => {
                "An Entity does not exist for the given ChunkCell"@
            },
            TilemapManagerError::TileDataDoesNotExist => {
                "TileData does not exist for the given ChunkCell"@
            },
        }
    }

    /// The text that describes the error.
    pub fn message(&self) -> (text: String)
        ensures
            text@ == self.spec_message(),
    {
        match self {
            TilemapManagerError::InvalidChunkPos => {
                "A Chunk does not exist for the given ChunkPos".to_owned()
            },
            TilemapManagerError::ChunkEntityDoesNotExist => {
                "A Chunk entity does not exist for the given ChunkPos".to_owned()
            },
            TilemapManagerError::TileEntityDoesNotExist => {
                "An Entity does not exist for the given ChunkCell".to_owned()
            },
            TilemapManagerError::TileDataDoesNotExist => {
                "TileData does not exist for the given ChunkCell".to_owned()
            },
        }
    }
}

impl<'w> From<QueryEntityError<'w>> for TilemapManagerError {
    /// When the engine cannot give the chunk that a query asked for, the
    /// chunk entity does not exist, whatever the engine's reason.
    fn from(error: QueryEntityError<'w>) -> (converted: Self) {
        TilemapManagerError::ChunkEntityDoesNotExist
    }
}

impl<'w> vstd::std_specs::convert::FromSpecImpl<QueryEntityError<'w>> for TilemapManagerError {
    open spec fn obeys_from_spec() -> bool {
        true
    }

    open spec fn from_spec(error: QueryEntityError<'w>) -> Self {
        TilemapManagerError::ChunkEntityDoesNotExist
    }
}

} // verus!
