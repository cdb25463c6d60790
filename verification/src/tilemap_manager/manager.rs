//! The manager: reads and writes of tiles, addressed by global cell, in the
//! layer that is currently selected.

use crate::map::coords::{Dimensions, EntityHandle, GlobalCell, TileData};
use crate::map::layer::MapLayer;
use crate::map::layer_bits::DEFAULT_LAYER;
use crate::map::tilemap::{written, Tilemap, TilemapView};
use crate::tilemap_manager::errors::TilemapManagerError;
use vstd::prelude::*;

verus! {

/// The session of one user of tile maps: the map that it works on and the
/// layer that it has selected. Several managers may exist side by side.
pub struct TilemapManager {
    tilemap_entity: Option<EntityHandle>,
    layer: u32,
}

impl TilemapManager {
    /// The entity of the map that the manager works on, once one was set.
    pub closed spec fn spec_tilemap_entity(&self) -> Option<EntityHandle> {
        self.tilemap_entity
    }

    /// The bits of the selected layer.
    pub closed spec fn spec_layer(&self) -> u32 {
        self.layer
    }

    /// Whether `map` is the map that the manager works on.
    pub open spec fn targets(&self, map: TilemapView) -> bool {
        self.spec_tilemap_entity() == Some(map.entity)
    }

    /// What a read or write gives on `map`: `outcome` when `map` is the map
    /// that the manager works on, and `InvalidChunkPos` when it is not, for
    /// in another map no chunk is the manager's.
    pub open spec fn on_target<T>(
        &self,
        map: TilemapView,
        outcome: Result<T, TilemapManagerError>,
    ) -> Result<T, TilemapManagerError> {
        if self.targets(map) {
            outcome
        } else {
            Err(TilemapManagerError::InvalidChunkPos)
        }
    }

    /// A manager that works on no map yet and has the default layer
    /// selected.
    pub fn new() -> (manager: TilemapManager)
        ensures
            manager.spec_tilemap_entity() is None,
            manager.spec_layer() == DEFAULT_LAYER,
    {
        TilemapManager { tilemap_entity: None, layer: DEFAULT_LAYER }
    }

    /// Makes the map that `tilemap_entity` stands for the map that the
    /// manager works on.
    pub fn set_tilemap_entity(&mut self, tilemap_entity: EntityHandle)
        ensures
            final(self).spec_tilemap_entity() == Some(tilemap_entity),
            final(self).spec_layer() == old(self).spec_layer(),
    {
        self.tilemap_entity = Some(tilemap_entity);
    }

    /// The entity of the map that the manager works on, once one was set.
    pub fn tilemap_entity(&self) -> (tilemap_entity: Option<EntityHandle>)
        ensures
            tilemap_entity == self.spec_tilemap_entity(),
    {
        self.tilemap_entity
    }

    /// Selects the layer with the given bits.
    pub fn set_layer_bits(&mut self, bits: u32)
        ensures
            final(self).spec_layer() == bits,
            final(self).spec_tilemap_entity() == old(self).spec_tilemap_entity(),
    {
        self.layer = bits;
    }

    /// Selects `layer`: from now on the manager reads and writes the layer
    /// with the bits of `layer`. The map that the manager works on stays
    /// the same.
    pub fn set_layer<L: MapLayer>(&mut self, layer: L)
        ensures
            final(self).spec_layer() == layer.spec_to_bits(),
            final(self).spec_tilemap_entity() == old(self).spec_tilemap_entity(),
    {
        let bits = layer.to_bits();
        self.set_layer_bits(bits);
    }

    /// The bits of the selected layer.
    pub fn layer(&self) -> (bits: u32)
        ensures
            bits == self.spec_layer(),
    {
        self.layer
    }

    /// Whether `tilemap` is the map that the manager works on.
    fn is_target(&self, tilemap: &Tilemap) -> (target: bool)
        ensures
            target == self.targets(tilemap@),
    {
        match self.tilemap_entity {
            Some(entity) => entity == tilemap.entity(),
            None => false,
        }
    }

    /// The dimensions of the map that the manager works on. Fails with
    /// `InvalidChunkPos` when `tilemap` is not that map.
    pub fn dimensions(&self, tilemap: &Tilemap) -> (dimensions: Result<
        Dimensions,
        TilemapManagerError,
    >)
        ensures
            dimensions == self.on_target(tilemap@, Ok(tilemap@.dimensions)),
    {
        if self.is_target(tilemap) {
            Ok(tilemap.dimensions())
        } else {
            Err(TilemapManagerError::InvalidChunkPos)
        }
    }

    /// The data of the tile at `cell` in the selected layer.
    ///
    /// Fails with `InvalidChunkPos` when `tilemap` is not the manager's map
    /// or has no place for the chunk of the cell, with
    /// `ChunkEntityDoesNotExist` when that place is empty, and with
    /// `TileDataDoesNotExist` when the chunk holds no data for the tile.
    pub fn get_tile_data(&self, tilemap: &Tilemap, cell: GlobalCell) -> (data: Result<
        TileData,
        TilemapManagerError,
    >)
        requires
            tilemap.wf(),
        ensures
            data == self.on_target(tilemap@, tilemap@.tile_data(self.spec_layer(), cell)),
    {
        if self.is_target(tilemap) {
            tilemap.get_tile_data(self.layer, cell)
        } else {
            Err(TilemapManagerError::InvalidChunkPos)
        }
    }

    /// Stores `tile_data` at `cell` in the selected layer.
    ///
    /// Fails as `get_tile_data` does when the chunk of the cell cannot be
    /// had, and then leaves the map as it is. To overwrite a tile is no
    /// error.
    pub fn set_tile_data(&self, tilemap: &mut Tilemap, cell: GlobalCell, tile_data: TileData) -> (stored:
        Result<(), TilemapManagerError>)
        requires
            old(tilemap).wf(),
        ensures
            final(tilemap).wf(),
            stored == self.on_target(old(tilemap)@, written(old(tilemap)@.resolve(cell))),
            final(tilemap)@ == (if self.targets(old(tilemap)@) {
                old(tilemap)@.with_tile_data(self.spec_layer(), cell, tile_data)
            } else {
                old(tilemap)@
            }),
    {
        if self.is_target(tilemap) {
            tilemap.set_tile_data(self.layer, cell, tile_data)
        } else {
            Err(TilemapManagerError::InvalidChunkPos)
        }
    }

    /// The entity of the tile at `cell` in the selected layer.
    ///
    /// Fails as `get_tile_data` does when the chunk of the cell cannot be
    /// had, and with `TileEntityDoesNotExist` when the chunk was found and
    /// holds no entity for the tile.
    pub fn get_tile_entity(&self, tilemap: &Tilemap, cell: GlobalCell) -> (entity: Result<
        EntityHandle,
        TilemapManagerError,
    >)
        requires
            tilemap.wf(),
        ensures
            entity == self.on_target(tilemap@, tilemap@.tile_entity(self.spec_layer(), cell)),
    {
        if self.is_target(tilemap) {
            tilemap.get_tile_entity(self.layer, cell)
        } else {
            Err(TilemapManagerError::InvalidChunkPos)
        }
    }

    /// Makes `entity` the entity of the tile at `cell` in the selected
    /// layer.
    ///
    /// Fails as `get_tile_data` does when the chunk of the cell cannot be
    /// had, and then leaves the map as it is.
    pub fn set_tile_entity(&self, tilemap: &mut Tilemap, cell: GlobalCell, entity: EntityHandle) -> (stored:
        Result<(), TilemapManagerError>)
        requires
            old(tilemap).wf(),
        ensures
            final(tilemap).wf(),
            stored == self.on_target(old(tilemap)@, written(old(tilemap)@.resolve(cell))),
            final(tilemap)@ == (if self.targets(old(tilemap)@) {
                old(tilemap)@.with_tile_entity(self.spec_layer(), cell, entity)
            } else {
                old(tilemap)@
            }),
    {
        if self.is_target(tilemap) {
            tilemap.set_tile_entity(self.layer, cell, entity)
        } else {
            Err(TilemapManagerError::InvalidChunkPos)
        }
    }
}

} // verus!
