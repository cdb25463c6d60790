//! A tile map: a grid of chunks that together cover the map.

use crate::map::chunk::{Chunk, ChunkView};
use crate::map::coords::{
    global_to_chunk, lemma_axis_split, spec_global_to_chunk, ChunkPos, ChunkTilePos, Dimensions,
    EntityHandle, GlobalCell, TileData,
};
use crate::tilemap_manager::errors::TilemapManagerError;
use vstd::prelude::*;

verus! {

/// The number of chunks of `chunk_size` tiles that it takes to cover
/// `length` tiles.
pub open spec fn chunks_to_cover(length: u32, chunk_size: u32) -> int {
    (length + chunk_size - 1) / (chunk_size as int)
}

/// What a tile map holds, as plain mathematical values.
pub struct TilemapView {
    /// The entity of the host engine that stands for the map.
    pub entity: EntityHandle,
    /// The dimensions of the whole map, in tiles.
    pub dimensions: Dimensions,
    /// The dimensions of the largest chunk. The map is cut at multiples of
    /// these.
    pub max_chunk_size: Dimensions,
    /// The chunks that are in place, each under its position.
    pub chunks: Map<ChunkPos, ChunkView>,
}

impl TilemapView {
    /// The number of columns of the grid of chunks.
    pub open spec fn chunk_columns(self) -> int {
        chunks_to_cover(self.dimensions.x, self.max_chunk_size.x)
    }

    /// The number of rows of the grid of chunks.
    pub open spec fn chunk_rows(self) -> int {
        chunks_to_cover(self.dimensions.y, self.max_chunk_size.y)
    }

    /// Whether the grid of chunks has a place for a chunk at `pos`.
    pub open spec fn in_chunk_grid(self, pos: ChunkPos) -> bool {
        0 <= pos.x < self.chunk_columns() && 0 <= pos.y < self.chunk_rows()
    }

    /// Whether every place of the grid of chunks has its chunk.
    pub open spec fn is_complete(self) -> bool {
        forall|pos: ChunkPos| #[trigger] self.in_chunk_grid(pos) ==> self.chunks.contains_key(pos)
    }

    /// Why the chunk at `pos` cannot be had, if it cannot: the grid has no
    /// such place, or the place is empty.
    pub open spec fn chunk_error(self, pos: ChunkPos) -> Option<TilemapManagerError> {
        if !self.in_chunk_grid(pos) {
            Some(TilemapManagerError::InvalidChunkPos)
        } else if !self.chunks.contains_key(pos) {
            Some(TilemapManagerError::ChunkEntityDoesNotExist)
        } else {
            None
        }
    }

    /// The chunk that holds `cell` and the place of the cell in it, or why
    /// the chunk cannot be had.
    pub open spec fn resolve(self, cell: GlobalCell) -> Result<
        (ChunkPos, ChunkTilePos),
        TilemapManagerError,
    > {
        let parts = spec_global_to_chunk(cell, self.max_chunk_size);
        match self.chunk_error(parts.0) {
            Some(error) => Err(error),
            None => Ok(parts),
        }
    }

    /// The data of the tile at `cell` of the layer `map_layer`.
    pub open spec fn tile_data(self, map_layer: u32, cell: GlobalCell) -> Result<
        TileData,
        TilemapManagerError,
    > {
        match self.resolve(cell) {
            Err(error) => Err(error),
            Ok(parts) => match self.chunks[parts.0].tile(map_layer, parts.1) {
                Some(data) => Ok(data),
                None => Err(TilemapManagerError::TileDataDoesNotExist),
            },
        }
    }

    /// The entity of the tile at `cell` of the layer `map_layer`.
    pub open spec fn tile_entity(self, map_layer: u32, cell: GlobalCell) -> Result<
        EntityHandle,
        TilemapManagerError,
    > {
        match self.resolve(cell) {
            Err(error) => Err(error),
            Ok(parts) => match self.chunks[parts.0].entity(map_layer, parts.1) {
                Some(entity) => Ok(entity),
                None => Err(TilemapManagerError::TileEntityDoesNotExist),
            },
        }
    }

    /// The map after `data` was stored at `cell` of the layer `map_layer`.
    /// A map in which the chunk of the cell cannot be had stays as it is.
    pub open spec fn with_tile_data(
        self,
        map_layer: u32,
        cell: GlobalCell,
        data: TileData,
    ) -> TilemapView {
        match self.resolve(cell) {
            Err(_) => self,
            Ok(parts) => TilemapView {
                chunks: self.chunks.insert(
                    parts.0,
                    self.chunks[parts.0].with_tile(map_layer, parts.1, data),
                ),
                ..self
            },
        }
    }

    /// The map after `entity` was made the entity of the tile at `cell` of
    /// the layer `map_layer`. A map in which the chunk of the cell cannot be
    /// had stays as it is.
    pub open spec fn with_tile_entity(
        self,
        map_layer: u32,
        cell: GlobalCell,
        entity: EntityHandle,
    ) -> TilemapView {
        match self.resolve(cell) {
            Err(_) => self,
            Ok(parts) => TilemapView {
                chunks: self.chunks.insert(
                    parts.0,
                    self.chunks[parts.0].with_entity(map_layer, parts.1, entity),
                ),
                ..self
            },
        }
    }
}

/// The result of a write that has nothing to return: the error of the
/// resolution, if there was one.
pub open spec fn written(
    resolved: Result<(ChunkPos, ChunkTilePos), TilemapManagerError>,
) -> Result<(), TilemapManagerError> {
    match resolved {
        Ok(_) => Ok(()),
        Err(error) => Err(error),
    }
}

/// Whether the rows of slots have a slot for `pos`.
spec fn has_slot(slots: Seq<Vec<Option<Chunk>>>, pos: ChunkPos) -> bool {
    0 <= pos.y < slots.len() && 0 <= pos.x < slots[pos.y as int]@.len()
}

/// Whether a chunk is in place at `pos`.
spec fn has_chunk(slots: Seq<Vec<Option<Chunk>>>, pos: ChunkPos) -> bool {
    has_slot(slots, pos) && slots[pos.y as int]@[pos.x as int] is Some
}

/// The chunk in place at `pos`.
spec fn chunk_at(slots: Seq<Vec<Option<Chunk>>>, pos: ChunkPos) -> Chunk {
    slots[pos.y as int]@[pos.x as int]->0
}

/// The chunks that are in place, each under its position.
spec fn chunks_of(slots: Seq<Vec<Option<Chunk>>>) -> Map<ChunkPos, ChunkView> {
    Map::new(|pos: ChunkPos| has_chunk(slots, pos), |pos: ChunkPos| chunk_at(slots, pos)@)
}

/// A tile map: its dimensions, the size of its chunks, and a grid with a
/// place for every chunk. A place is empty until its chunk is put there.
pub struct Tilemap {
    entity: EntityHandle,
    dimensions: Dimensions,
    max_chunk_size: Dimensions,
    chunks: Vec<Vec<Option<Chunk>>>,
}

impl View for Tilemap {
    type V = TilemapView;

    /// What the map holds.
    closed spec fn view(&self) -> TilemapView {
        TilemapView {
            entity: self.entity,
            dimensions: self.dimensions,
            max_chunk_size: self.max_chunk_size,
            chunks: chunks_of(self.chunks@),
        }
    }
}

/// The number of chunks of `chunk_size` tiles that it takes to cover
/// `length` tiles.
fn count_chunks(length: u32, chunk_size: u32) -> (count: u32)
    requires
        chunk_size > 0,
    ensures
        count == chunks_to_cover(length, chunk_size),
{
    let total: u64 = length as u64 + chunk_size as u64 - 1;
    let count: u64 = total / (chunk_size as u64);
    proof {
        let t = total as int;
        let d = chunk_size as int;
        vstd::arithmetic::div_mod::lemma_fundamental_div_mod(t, d);
        vstd::arithmetic::div_mod::lemma_mod_bound(t, d);
        assert(t / d <= length) by (nonlinear_arith)
            requires
                t == d * (t / d) + t % d,
                0 <= t % d,
                t == length + d - 1,
                d >= 1,
                length >= 0,
        ;
    }
    count as u32
}

impl Tilemap {
    /// Whether the map is well formed: its chunks have a size, its grid has
    /// exactly the places that cover the map, and every chunk in place is
    /// well formed and knows the position of its place.
    pub closed spec fn wf(&self) -> bool {
        &&& self.max_chunk_size.x > 0
        &&& self.max_chunk_size.y > 0
        &&& self.chunks@.len() == self@.chunk_rows()
        &&& forall|y: int|
            0 <= y < self.chunks@.len() ==> (#[trigger] self.chunks@[y])@.len()
                == self@.chunk_columns()
        &&& forall|pos: ChunkPos| #[trigger]
            has_chunk(self.chunks@, pos) ==> chunk_at(self.chunks@, pos).wf() && chunk_at(
                self.chunks@,
                pos,
            )@.chunk_pos == pos
    }

    /// In a well-formed map the chunks have a size, and every chunk in place
    /// stands at a place of the grid and knows its position.
    pub proof fn lemma_chunks_in_grid(&self, pos: ChunkPos)
        requires
            self.wf(),
        ensures
            self@.max_chunk_size.x > 0,
            self@.max_chunk_size.y > 0,
            self@.chunks.contains_key(pos) ==> self@.in_chunk_grid(pos) && self@.chunks[pos].chunk_pos
                == pos,
    {
        if self@.chunks.contains_key(pos) {
            assert(has_chunk(self.chunks@, pos));
            assert(self.chunks@[pos.y as int]@.len() == self@.chunk_columns());
        }
    }

    /// A map of the given dimensions, cut into chunks of at most
    /// `max_chunk_size`, with no chunk in place yet.
    pub fn new(entity: EntityHandle, dimensions: Dimensions, max_chunk_size: Dimensions) -> (tilemap:
        Tilemap)
        requires
            max_chunk_size.x > 0,
            max_chunk_size.y > 0,
        ensures
            tilemap.wf(),
            tilemap@ == (TilemapView { entity, dimensions, max_chunk_size, chunks: Map::empty() }),
    {
        let columns = count_chunks(dimensions.x, max_chunk_size.x);
        let rows = count_chunks(dimensions.y, max_chunk_size.y);
        let mut chunks: Vec<Vec<Option<Chunk>>> = Vec::new();
        let mut y: u32 = 0;
        while y < rows
            invariant
                y <= rows,
                chunks@.len() == y,
                forall|r: int| 0 <= r < y ==> (#[trigger] chunks@[r])@.len() == columns,
                forall|r: int, c: int|
                    0 <= r < y && 0 <= c < columns ==> (#[trigger] chunks@[r]@[c]) is None,
            decreases rows - y,
        {
            let mut row: Vec<Option<Chunk>> = Vec::new();
            let mut x: u32 = 0;
            while x < columns
                invariant
                    x <= columns,
                    row@.len() == x,
                    forall|c: int| 0 <= c < x ==> (#[trigger] row@[c]) is None,
                decreases columns - x,
            {
                row.push(None);
                x += 1;
            }
            chunks.push(row);
            y += 1;
        }
        let tilemap = Tilemap { entity, dimensions, max_chunk_size, chunks };
        proof {
            assert forall|pos: ChunkPos| !has_chunk(tilemap.chunks@, pos) by {
                if has_slot(tilemap.chunks@, pos) {
                    assert(tilemap.chunks@[pos.y as int]@[pos.x as int] is None);
                }
            }
            assert(tilemap@.chunks =~= Map::<ChunkPos, ChunkView>::empty());
        }
        tilemap
    }

    /// The entity of the host engine that stands for the map.
    pub fn entity(&self) -> (entity: EntityHandle)
        ensures
            entity == self@.entity,
    {
        self.entity
    }

    /// The dimensions of the whole map, in tiles.
    pub fn dimensions(&self) -> (dimensions: Dimensions)
        ensures
            dimensions == self@.dimensions,
    {
        self.dimensions
    }

    /// The dimensions of the largest chunk.
    pub fn max_chunk_size(&self) -> (max_chunk_size: Dimensions)
        ensures
            max_chunk_size == self@.max_chunk_size,
    {
        self.max_chunk_size
    }

    /// Whether every place of the grid of chunks has its chunk, so that the
    /// map has no holes.
    pub fn is_complete(&self) -> (complete: bool)
        requires
            self.wf(),
        ensures
            complete == self@.is_complete(),
    {
        let mut y: usize = 0;
        while y < self.chunks.len() && y <= 0x7fff_ffff
            invariant
                self.wf(),
                y <= self.chunks@.len(),
                forall|pos: ChunkPos|
                    #![trigger self@.in_chunk_grid(pos)]
                    self@.in_chunk_grid(pos) && pos.y < y ==> self@.chunks.contains_key(pos),
            decreases self.chunks@.len() - y,
        {
            let row = &self.chunks[y];
            let mut x: usize = 0;
            while x < row.len() && x <= 0x7fff_ffff
                invariant
                    self.wf(),
                    y < self.chunks@.len(),
                    y <= 0x7fff_ffff,
                    row@ == self.chunks@[y as int]@,
                    x <= row@.len(),
                    forall|pos: ChunkPos|
                        #![trigger self@.in_chunk_grid(pos)]
                        self@.in_chunk_grid(pos) && pos.y < y ==> self@.chunks.contains_key(pos),
                    forall|pos: ChunkPos|
                        #![trigger self@.in_chunk_grid(pos)]
                        self@.in_chunk_grid(pos) && pos.y == y && pos.x < x
                            ==> self@.chunks.contains_key(pos),
                decreases row@.len() - x,
            {
                if row[x].is_none() {
                    proof {
                        let hole = ChunkPos { x: x as i32, y: y as i32 };
                        assert(self@.in_chunk_grid(hole));
                        assert(!has_chunk(self.chunks@, hole));
                    }
                    return false;
                }
                proof {
                    let here = ChunkPos { x: x as i32, y: y as i32 };
                    assert(has_chunk(self.chunks@, here));
                    assert forall|pos: ChunkPos|
                        #![trigger self@.in_chunk_grid(pos)]
                        self@.in_chunk_grid(pos) && pos.y == y && pos.x < x
                            + 1 implies self@.chunks.contains_key(pos) by {
                        if pos.x == x {
                            assert(pos == here);
                        }
                    }
                }
                x += 1;
            }
            y += 1;
        }
        true
    }

    /// The row and the column of the slot for the chunk at `chunk_pos`, if
    /// the grid has one.
    fn find_slot(&self, chunk_pos: ChunkPos) -> (slot: Option<(usize, usize)>)
        requires
            self.wf(),
        ensures
            match slot {
                Some((row, column)) => self@.in_chunk_grid(chunk_pos) && row == chunk_pos.y
                    && column == chunk_pos.x && has_slot(self.chunks@, chunk_pos),
                None => !self@.in_chunk_grid(chunk_pos),
            },
    {
        if chunk_pos.x < 0 || chunk_pos.y < 0 {
            return None;
        }
        let row = chunk_pos.y as usize;
        let column = chunk_pos.x as usize;
        if row >= self.chunks.len() {
            return None;
        }
        if column >= self.chunks[row].len() {
            return None;
        }
        Some((row, column))
    }

    /// Puts `chunk` in the place that its position names, in place of a
    /// chunk that was there. A chunk whose position the grid has no place
    /// for is refused, and the map stays as it is.
    pub fn insert_chunk(&mut self, chunk: Chunk) -> (inserted: Result<(), TilemapManagerError>)
        requires
            old(self).wf(),
            chunk.wf(),
        ensures
            final(self).wf(),
            inserted == (if old(self)@.in_chunk_grid(chunk@.chunk_pos) {
                Ok::<(), TilemapManagerError>(())
            } else {
                Err(TilemapManagerError::InvalidChunkPos)
            }),
            final(self)@ == (if old(self)@.in_chunk_grid(chunk@.chunk_pos) {
                TilemapView {
                    chunks: old(self)@.chunks.insert(chunk@.chunk_pos, chunk@),
                    ..old(self)@
                }
            } else {
                old(self)@
            }),
    {
        let chunk_pos = chunk.get_chunk_pos();
        let ghost before = self.chunks@;
        let ghost placed = chunk;
        match self.find_slot(chunk_pos) {
            Some((row, column)) => {
                self.chunks[row][column] = Some(chunk);
                proof {
                    lemma_slot_change(before, self.chunks@, chunk_pos);
                    assert(final(self)@.chunks =~= old(self)@.chunks.insert(chunk_pos, placed@));
                }
                Ok(())
            },
            None => Err(TilemapManagerError::InvalidChunkPos),
        }
    }

    /// The chunk at `chunk_pos`. There is none when the grid of chunks has
    /// no such place, or when the place is empty.
    pub fn get_chunk(&self, chunk_pos: ChunkPos) -> (found: Result<&Chunk, TilemapManagerError>)
        requires
            self.wf(),
        ensures
            match found {
                Ok(chunk) => self@.chunk_error(chunk_pos) is None && chunk@ == self@.chunks[chunk_pos]
                    && chunk.wf(),
                Err(error) => self@.chunk_error(chunk_pos) == Some(error),
            },
    {
        match self.find_slot(chunk_pos) {
            Some((row, column)) => match &self.chunks[row][column] {
                Some(chunk) => {
                    proof {
                        assert(has_chunk(self.chunks@, chunk_pos));
                    }
                    Ok(chunk)
                },
                None => Err(TilemapManagerError::ChunkEntityDoesNotExist),
            },
            None => Err(TilemapManagerError::InvalidChunkPos),
        }
    }

    /// The data of the tile at `cell` of the layer `map_layer`.
    ///
    /// The cell is taken to its chunk and its place there. The read fails
    /// with `InvalidChunkPos` when the grid has no place for that chunk,
    /// with `ChunkEntityDoesNotExist` when the place is empty, and with
    /// `TileDataDoesNotExist` when the chunk holds no data for the tile in
    /// that layer.
    pub fn get_tile_data(&self, map_layer: u32, cell: GlobalCell) -> (data: Result<
        TileData,
        TilemapManagerError,
    >)
        requires
            self.wf(),
        ensures
            data == self@.tile_data(map_layer, cell),
    {
        let (chunk_pos, chunk_tile_pos) = global_to_chunk(cell, self.max_chunk_size);
        match self.get_chunk(chunk_pos) {
            Ok(chunk) => match chunk.get_tile_data(map_layer, chunk_tile_pos) {
                Some(data) => Ok(*data),
                None => Err(TilemapManagerError::TileDataDoesNotExist),
            },
            Err(error) => Err(error),
        }
    }

    /// The entity of the tile at `cell` of the layer `map_layer`.
    ///
    /// The read fails as `get_tile_data` does when the chunk cannot be had,
    /// and with `TileEntityDoesNotExist` when the chunk holds no entity for
    /// the tile in that layer.
    pub fn get_tile_entity(&self, map_layer: u32, cell: GlobalCell) -> (entity: Result<
        EntityHandle,
        TilemapManagerError,
    >)
        requires
            self.wf(),
        ensures
            entity == self@.tile_entity(map_layer, cell),
    {
        let (chunk_pos, chunk_tile_pos) = global_to_chunk(cell, self.max_chunk_size);
        match self.get_chunk(chunk_pos) {
            Ok(chunk) => match chunk.get_tile_entity(map_layer, chunk_tile_pos) {
                Some(entity) => Ok(entity),
                None => Err(TilemapManagerError::TileEntityDoesNotExist),
            },
            Err(error) => Err(error),
        }
    }

    /// Stores `tile_data` at `cell` of the layer `map_layer`.
    ///
    /// The write fails, and leaves the map as it is, when the chunk of the
    /// cell cannot be had. Once the chunk is found the write is handed to
    /// it, and succeeds whether or not the tile held data before.
    pub fn set_tile_data(&mut self, map_layer: u32, cell: GlobalCell, tile_data: TileData) -> (stored:
        Result<(), TilemapManagerError>)
        requires
            old(self).wf(),
        ensures
            final(self).wf(),
            stored == written(old(self)@.resolve(cell)),
            final(self)@ == old(self)@.with_tile_data(map_layer, cell, tile_data),
    {
        let (chunk_pos, chunk_tile_pos) = global_to_chunk(cell, self.max_chunk_size);
        let ghost before = self.chunks@;
        match self.find_slot(chunk_pos) {
            Some((row, column)) => {
                if self.chunks[row][column].is_none() {
                    return Err(TilemapManagerError::ChunkEntityDoesNotExist);
                }
                proof {
                    assert(has_chunk(before, chunk_pos));
                }
                if let Some(chunk) = &mut self.chunks[row][column] {
                    chunk.set_tile_data(map_layer, chunk_tile_pos, tile_data);
                }
                proof {
                    lemma_slot_change(before, self.chunks@, chunk_pos);
                    assert(final(self)@.chunks =~= old(self)@.chunks.insert(
                        chunk_pos,
                        old(self)@.chunks[chunk_pos].with_tile(map_layer, chunk_tile_pos, tile_data),
                    ));
                }
                Ok(())
            },
            None => Err(TilemapManagerError::InvalidChunkPos),
        }
    }

    /// Makes `entity` the entity of the tile at `cell` of the layer
    /// `map_layer`.
    ///
    /// The write fails, and leaves the map as it is, when the chunk of the
    /// cell cannot be had.
    pub fn set_tile_entity(&mut self, map_layer: u32, cell: GlobalCell, entity: EntityHandle) -> (stored:
        Result<(), TilemapManagerError>)
        requires
            old(self).wf(),
        ensures
            final(self).wf(),
            stored == written(old(self)@.resolve(cell)),
            final(self)@ == old(self)@.with_tile_entity(map_layer, cell, entity),
    {
        let (chunk_pos, chunk_tile_pos) = global_to_chunk(cell, self.max_chunk_size);
        let ghost before = self.chunks@;
        match self.find_slot(chunk_pos) {
            Some((row, column)) => {
                if self.chunks[row][column].is_none() {
                    return Err(TilemapManagerError::ChunkEntityDoesNotExist);
                }
                proof {
                    assert(has_chunk(before, chunk_pos));
                }
                if let Some(chunk) = &mut self.chunks[row][column] {
                    chunk.set_tile_entity(map_layer, chunk_tile_pos, entity);
                }
                proof {
                    lemma_slot_change(before, self.chunks@, chunk_pos);
                    assert(final(self)@.chunks =~= old(self)@.chunks.insert(
                        chunk_pos,
                        old(self)@.chunks[chunk_pos].with_entity(map_layer, chunk_tile_pos, entity),
                    ));
                }
                Ok(())
            },
            None => Err(TilemapManagerError::InvalidChunkPos),
        }
    }
}

/// When the slot at `pos` gets a chunk and every other slot stays as it
/// is, the chunks in place change at `pos` alone.
proof fn lemma_slot_change(
    before: Seq<Vec<Option<Chunk>>>,
    after: Seq<Vec<Option<Chunk>>>,
    pos: ChunkPos,
)
    requires
        has_slot(before, pos),
        after.len() == before.len(),
        forall|y: int| 0 <= y < before.len() ==> (#[trigger] after[y])@.len() == before[y]@.len(),
        after[pos.y as int]@[pos.x as int] is Some,
        forall|y: int, x: int|
            0 <= y < before.len() && 0 <= x < before[y]@.len() && !(y == pos.y && x == pos.x)
                ==> (#[trigger] after[y]@[x]) == before[y]@[x],
    ensures
        has_chunk(after, pos),
        forall|other: ChunkPos|
            other != pos ==> (has_chunk(after, other) <==> has_chunk(before, other)),
        forall|other: ChunkPos|
            other != pos && has_chunk(before, other) ==> chunk_at(after, other) == chunk_at(
                before,
                other,
            ),
{
    assert forall|other: ChunkPos| other != pos implies (has_chunk(after, other) <==> has_chunk(
        before,
        other,
    )) by {
        if has_slot(before, other) {
            assert(after[other.y as int]@.len() == before[other.y as int]@.len());
            assert(after[other.y as int]@[other.x as int] == before[other.y as int]@[other.x as int]);
        }
        if has_slot(after, other) {
            assert(after[other.y as int]@.len() == before[other.y as int]@.len());
        }
    }
    assert forall|other: ChunkPos| other != pos && has_chunk(before, other) implies chunk_at(
        after,
        other,
    ) == chunk_at(before, other) by {
        assert(after[other.y as int]@[other.x as int] == before[other.y as int]@[other.x as int]);
    }
    assert(after[pos.y as int]@.len() == before[pos.y as int]@.len());
}

/// Every cell inside the dimensions of a map lies in a chunk that the grid
/// of chunks has a place for.
pub proof fn lemma_cell_in_map_has_chunk_place(map: TilemapView, cell: GlobalCell)
    requires
        map.max_chunk_size.x > 0,
        map.max_chunk_size.y > 0,
        0 <= cell.x < map.dimensions.x,
        0 <= cell.y < map.dimensions.y,
    ensures
        map.in_chunk_grid(spec_global_to_chunk(cell, map.max_chunk_size).0),
{
    lemma_axis_split(cell.x, map.max_chunk_size.x);
    lemma_axis_split(cell.y, map.max_chunk_size.y);
    lemma_chunk_of_cell_is_covered(cell.x as int, map.dimensions.x as int, map.max_chunk_size.x as int);
    lemma_chunk_of_cell_is_covered(cell.y as int, map.dimensions.y as int, map.max_chunk_size.y as int);
}

/// In a map without holes every cell inside the dimensions of the map
/// resolves to its chunk and its place there.
pub proof fn lemma_complete_map_resolves_every_cell(map: TilemapView, cell: GlobalCell)
    requires
        map.max_chunk_size.x > 0,
        map.max_chunk_size.y > 0,
        map.is_complete(),
        0 <= cell.x < map.dimensions.x,
        0 <= cell.y < map.dimensions.y,
    ensures
        map.resolve(cell) == Ok::<(ChunkPos, ChunkTilePos), TilemapManagerError>(
            spec_global_to_chunk(cell, map.max_chunk_size),
        ),
{
    lemma_cell_in_map_has_chunk_place(map, cell);
}

/// A coordinate below `length` lies in one of the chunks that cover
/// `length`.
proof fn lemma_chunk_of_cell_is_covered(value: int, length: int, size: int)
    requires
        size > 0,
        0 <= value < length,
    ensures
        0 <= value / size < (length + size - 1) / size,
{
    vstd::arithmetic::div_mod::lemma_fundamental_div_mod(value, size);
    vstd::arithmetic::div_mod::lemma_mod_bound(value, size);
    let total = length + size - 1;
    vstd::arithmetic::div_mod::lemma_fundamental_div_mod(total, size);
    vstd::arithmetic::div_mod::lemma_mod_bound(total, size);
    let q = value / size;
    let c = total / size;
    assert(0 <= q < c) by (nonlinear_arith)
        requires
            value == size * q + value % size,
            0 <= value % size < size,
            total == size * c + total % size,
            0 <= total % size < size,
            total == length + size - 1,
            0 <= value < length,
            size > 0,
    ;
}

} // verus!
