//! A chunk: one rectangular part of a map, with the storage of each of its
//! layers.

use crate::map::coords::{ChunkPos, ChunkTilePos, Dimensions, EntityHandle, TileData};
use crate::map::layer::{lemma_second_write_wins, LayerChunkData, LayerView};
use vstd::prelude::*;

verus! {

/// What a chunk holds, as plain mathematical values.
pub struct ChunkView {
    /// The place of the chunk in the grid of chunks.
    pub chunk_pos: ChunkPos,
    /// The dimensions of the chunk, which all its layers share.
    pub dimensions: Dimensions,
    /// The layers of the chunk, each under the bits that identify it.
    pub layers: Map<u32, LayerView>,
}

impl ChunkView {
    /// The data of the tile at `pos` of the layer `map_layer`, if the chunk
    /// has that layer and the layer holds data there.
    pub open spec fn tile(self, map_layer: u32, pos: ChunkTilePos) -> Option<TileData> {
        if self.layers.contains_key(map_layer) {
            self.layers[map_layer].tile(pos)
        } else {
            None
        }
    }

    /// The entity of the tile at `pos` of the layer `map_layer`, if the
    /// chunk has that layer and an entity was set there.
    pub open spec fn entity(self, map_layer: u32, pos: ChunkTilePos) -> Option<EntityHandle> {
        if self.layers.contains_key(map_layer) {
            self.layers[map_layer].entity(pos)
        } else {
            None
        }
    }

    /// The chunk after `data` was stored at `pos` of the layer `map_layer`.
    /// A chunk without that layer stays as it is.
    pub open spec fn with_tile(self, map_layer: u32, pos: ChunkTilePos, data: TileData) -> ChunkView {
        if self.layers.contains_key(map_layer) {
            ChunkView {
                layers: self.layers.insert(map_layer, self.layers[map_layer].with_tile(pos, data)),
                ..self
            }
        } else {
            self
        }
    }

    /// The chunk after `entity` was made the entity of the tile at `pos` of
    /// the layer `map_layer`. A chunk without that layer stays as it is.
    pub open spec fn with_entity(
        self,
        map_layer: u32,
        pos: ChunkTilePos,
        entity: EntityHandle,
    ) -> ChunkView {
        if self.layers.contains_key(map_layer) {
            ChunkView {
                layers: self.layers.insert(
                    map_layer,
                    self.layers[map_layer].with_entity(pos, entity),
                ),
                ..self
            }
        } else {
            self
        }
    }
}

/// Storing data twice at one position of one layer of a chunk leaves the
/// second data there, and leaves the chunk as if only the second had been
/// stored.
pub proof fn lemma_second_write_wins_in_chunk(
    chunk: ChunkView,
    map_layer: u32,
    pos: ChunkTilePos,
    first: TileData,
    second: TileData,
)
    ensures
        chunk.with_tile(map_layer, pos, first).with_tile(map_layer, pos, second) == chunk.with_tile(
            map_layer,
            pos,
            second,
        ),
        chunk.layers.contains_key(map_layer) && chunk.layers[map_layer].takes_tile(pos)
            ==> chunk.with_tile(map_layer, pos, first).with_tile(map_layer, pos, second).tile(
            map_layer,
            pos,
        ) == Some(second),
{
    if chunk.layers.contains_key(map_layer) {
        let layer = chunk.layers[map_layer];
        lemma_second_write_wins(layer, pos, first, second);
        let once = chunk.with_tile(map_layer, pos, first);
        let twice = once.with_tile(map_layer, pos, second);
        assert(twice.layers =~= chunk.layers.insert(map_layer, layer.with_tile(pos, second)));
    }
}

/// One layer of a chunk with the bits that identify it.
struct ChunkLayer {
    bits: u32,
    data: LayerChunkData,
}

/// Whether some slot holds the layer with the given bits.
spec fn has_slot(slots: Seq<ChunkLayer>, bits: u32) -> bool {
    exists|i: int| 0 <= i < slots.len() && slots[i].bits == bits
}

/// A slot that holds the layer with the given bits.
spec fn slot_of(slots: Seq<ChunkLayer>, bits: u32) -> int {
    choose|i: int| 0 <= i < slots.len() && slots[i].bits == bits
}

/// Whether no two slots hold a layer with the same bits.
spec fn distinct_slots(slots: Seq<ChunkLayer>) -> bool {
    forall|i: int, j: int| 0 <= i < j < slots.len() ==> slots[i].bits != slots[j].bits
}

/// The layers that the slots hold, each under its bits.
spec fn layers_of(slots: Seq<ChunkLayer>) -> Map<u32, LayerView> {
    Map::new(|bits: u32| has_slot(slots, bits), |bits: u32| slots[slot_of(slots, bits)].data@)
}

/// The bits of the layers that the slots hold.
spec fn keys_of(slots: Seq<ChunkLayer>) -> Set<u32> {
    Set::new(|bits: u32| has_slot(slots, bits))
}

/// Distinct slots hold as many layers as there are slots.
proof fn lemma_one_layer_per_slot(slots: Seq<ChunkLayer>)
    requires
        distinct_slots(slots),
    ensures
        keys_of(slots).finite(),
        keys_of(slots).len() == slots.len(),
    decreases slots.len(),
{
    if slots.len() == 0 {
        assert(keys_of(slots) =~= Set::<u32>::empty());
    } else {
        let rest = slots.drop_last();
        let last = slots.last();
        assert forall|i: int, j: int| 0 <= i < j < rest.len() implies rest[i].bits
            != rest[j].bits by {
            assert(slots[i].bits != slots[j].bits);
        }
        lemma_one_layer_per_slot(rest);
        if has_slot(rest, last.bits) {
            let i = slot_of(rest, last.bits);
            assert(slots[i].bits != slots[slots.len() - 1].bits);
        }
        assert forall|bits: u32| has_slot(slots, bits) <==> (has_slot(rest, bits) || bits
            == last.bits) by {
            if has_slot(slots, bits) {
                let i = slot_of(slots, bits);
                if i < rest.len() {
                    assert(rest[i].bits == bits);
                }
            }
            if has_slot(rest, bits) {
                let i = slot_of(rest, bits);
                assert(slots[i].bits == bits);
            }
            if bits == last.bits {
                assert(slots[slots.len() - 1].bits == bits);
            }
        }
        assert(keys_of(slots) =~= keys_of(rest).insert(last.bits));
    }
}

/// Among distinct slots, the slot of a layer is the one place where its
/// bits are found.
proof fn lemma_slot_of(slots: Seq<ChunkLayer>, index: int)
    requires
        distinct_slots(slots),
        0 <= index < slots.len(),
    ensures
        has_slot(slots, slots[index].bits),
        slot_of(slots, slots[index].bits) == index,
{
    let found = slot_of(slots, slots[index].bits);
    assert(0 <= found < slots.len() && slots[found].bits == slots[index].bits);
    if found < index {
        assert(slots[found].bits != slots[index].bits);
    } else if index < found {
        assert(slots[index].bits != slots[found].bits);
    }
}

/// One rectangular part of a map. It holds one storage for each layer that
/// was added to it, and all of them have the dimensions of the chunk.
pub struct Chunk {
    chunk_pos: ChunkPos,
    dimensions: Dimensions,
    layers: Vec<ChunkLayer>,
}

impl View for Chunk {
    type V = ChunkView;

    /// What the chunk holds.
    closed spec fn view(&self) -> ChunkView {
        ChunkView {
            chunk_pos: self.chunk_pos,
            dimensions: self.dimensions,
            layers: layers_of(self.layers@),
        }
    }
}

impl Chunk {
    /// Whether the chunk is well formed: each layer is stored once, and
    /// every layer has the dimensions of the chunk.
    pub closed spec fn wf(&self) -> bool {
        &&& distinct_slots(self.layers@)
        &&& forall|i: int|
            0 <= i < self.layers@.len() ==> (#[trigger] self.layers@[i]).data@.dimensions
                == self.dimensions
    }

    /// In a well-formed chunk every layer has the dimensions of the chunk.
    pub proof fn lemma_layers_share_dimensions(&self, map_layer: u32)
        requires
            self.wf(),
            self@.layers.contains_key(map_layer),
        ensures
            self@.layers[map_layer].dimensions == self@.dimensions,
    {
        let index = slot_of(self.layers@, map_layer);
        assert(self.layers@[index].data@.dimensions == self.dimensions);
    }

    /// A chunk at `chunk_pos` with the given dimensions and no layers yet.
    pub fn new(chunk_pos: ChunkPos, chunk_dimensions: Dimensions) -> (chunk: Chunk)
        ensures
            chunk.wf(),
            chunk@ == (ChunkView {
                chunk_pos,
                dimensions: chunk_dimensions,
                layers: Map::empty(),
            }),
    {
        let chunk = Chunk { chunk_pos, dimensions: chunk_dimensions, layers: Vec::new() };
        proof {
            assert(chunk@.layers =~= Map::<u32, LayerView>::empty());
        }
        chunk
    }

    /// The slot that holds the layer `map_layer`, if the chunk has it.
    fn find_layer(&self, map_layer: u32) -> (found: Option<usize>)
        requires
            self.wf(),
        ensures
            match found {
                Some(index) => index < self.layers@.len() && self.layers@[index as int].bits
                    == map_layer && slot_of(self.layers@, map_layer) == index
                    && self@.layers.contains_key(map_layer),
                None => !self@.layers.contains_key(map_layer),
            },
    {
        let mut index: usize = 0;
        while index < self.layers.len()
            invariant
                self.wf(),
                index <= self.layers@.len(),
                forall|i: int| 0 <= i < index ==> self.layers@[i].bits != map_layer,
            decreases self.layers@.len() - index,
        {
            if self.layers[index].bits == map_layer {
                proof {
                    lemma_slot_of(self.layers@, index as int);
                }
                return Some(index);
            }
            index += 1;
        }
        None
    }

    /// Gives the chunk the layer `map_layer` with the storage `layer_data`,
    /// in place of an earlier storage of that layer. The storage must have
    /// the dimensions of the chunk.
    pub fn add_layer(&mut self, map_layer: u32, layer_data: LayerChunkData)
        requires
            old(self).wf(),
            layer_data@.dimensions == old(self)@.dimensions,
        ensures
            final(self).wf(),
            final(self)@ == (ChunkView {
                layers: old(self)@.layers.insert(map_layer, layer_data@),
                ..old(self)@
            }),
    {
        let ghost before = self.layers@;
        let ghost added = layer_data@;
        let slot = ChunkLayer { bits: map_layer, data: layer_data };
        match self.find_layer(map_layer) {
            Some(index) => {
                self.layers[index] = slot;
            },
            None => {
                self.layers.push(slot);
            },
        }
        proof {
            let after = self.layers@;
            let place = if has_slot(before, map_layer) {
                slot_of(before, map_layer)
            } else {
                before.len() as int
            };
            assert(after[place].bits == map_layer && after[place].data@ == added);
            assert forall|i: int| 0 <= i < before.len() && i != place implies after[i]
                == before[i] by {}
            assert(distinct_slots(after)) by {
                assert forall|i: int, j: int| 0 <= i < j < after.len() implies after[i].bits
                    != after[j].bits by {
                    if i != place && j != place {
                        assert(before[i].bits != before[j].bits);
                    }
                }
            }
            assert forall|bits: u32| has_slot(after, bits) <==> (bits == map_layer || has_slot(
                before,
                bits,
            )) by {
                if has_slot(after, bits) {
                    let i = slot_of(after, bits);
                    if i != place {
                        assert(before[i].bits == bits);
                    }
                }
                if has_slot(before, bits) {
                    let i = slot_of(before, bits);
                    assert(after[i].bits == bits);
                }
            }
            assert forall|bits: u32| has_slot(after, bits) && bits != map_layer implies after[slot_of(
                after,
                bits,
            )].data@ == before[slot_of(before, bits)].data@ by {
                let i = slot_of(before, bits);
                assert(after[i].bits == bits);
                lemma_slot_of(after, i);
            }
            lemma_slot_of(after, place);
            assert(final(self)@.layers =~= old(self)@.layers.insert(map_layer, added));
        }
    }

    /// The place of the chunk in the grid of chunks.
    pub fn get_chunk_pos(&self) -> (chunk_pos: ChunkPos)
        ensures
            chunk_pos == self@.chunk_pos,
    {
        self.chunk_pos
    }

    /// The dimensions of the chunk.
    pub fn get_chunk_dimensions(&self) -> (dimensions: Dimensions)
        ensures
            dimensions == self@.dimensions,
    {
        self.dimensions
    }

    /// The number of layers of the chunk: one storage for each layer that
    /// was added, however often it was added.
    pub fn layer_count(&self) -> (count: usize)
        requires
            self.wf(),
        ensures
            self@.layers.dom().finite(),
            count == self@.layers.dom().len(),
    {
        proof {
            lemma_one_layer_per_slot(self.layers@);
            assert(self@.layers.dom() =~= keys_of(self.layers@));
        }
        self.layers.len()
    }

    /// Whether the chunk has the layer `map_layer`.
    pub fn has_layer(&self, map_layer: u32) -> (present: bool)
        requires
            self.wf(),
        ensures
            present == self@.layers.contains_key(map_layer),
    {
        self.find_layer(map_layer).is_some()
    }

    /// The data of the tile at `chunk_tile_pos` of the layer `map_layer`, if
    /// the chunk has that layer and the layer holds data there.
    pub fn get_tile_data(&self, map_layer: u32, chunk_tile_pos: ChunkTilePos) -> (tile: Option<
        &TileData,
    >)
        requires
            self.wf(),
        ensures
            tile == (match self@.tile(map_layer, chunk_tile_pos) {
                Some(data) => Some(&data),
                None => None,
            }),
    {
        match self.find_layer(map_layer) {
            Some(index) => self.layers[index].data.get_tile_data(chunk_tile_pos),
            None => None,
        }
    }

    /// Stores `tile_data` at `chunk_tile_pos` of the layer `map_layer`. A
    /// chunk without that layer stays as it is.
    pub fn set_tile_data(&mut self, map_layer: u32, chunk_tile_pos: ChunkTilePos, tile_data: TileData)
        requires
            old(self).wf(),
        ensures
            final(self).wf(),
            final(self)@ == old(self)@.with_tile(map_layer, chunk_tile_pos, tile_data),
    {
        let ghost before = self.layers@;
        match self.find_layer(map_layer) {
            Some(index) => {
                self.layers[index].data.set_tile_data(chunk_tile_pos, tile_data);
                proof {
                    lemma_slot_change(before, self.layers@, index as int);
                }
            },
            None => {},
        }
    }

    /// The entity of the tile at `chunk_tile_pos` of the layer `map_layer`,
    /// if the chunk has that layer and an entity was set there.
    pub fn get_tile_entity(&self, map_layer: u32, chunk_tile_pos: ChunkTilePos) -> (entity: Option<
        EntityHandle,
    >)
        requires
            self.wf(),
        ensures
            entity == self@.entity(map_layer, chunk_tile_pos),
    {
        match self.find_layer(map_layer) {
            Some(index) => self.layers[index].data.get_tile_entity(chunk_tile_pos),
            None => None,
        }
    }

    /// Makes `entity` the entity of the tile at `chunk_tile_pos` of the
    /// layer `map_layer`. A chunk without that layer stays as it is.
    pub fn set_tile_entity(
        &mut self,
        map_layer: u32,
        chunk_tile_pos: ChunkTilePos,
        entity: EntityHandle,
    )
        requires
            old(self).wf(),
        ensures
            final(self).wf(),
            final(self)@ == old(self)@.with_entity(map_layer, chunk_tile_pos, entity),
    {
        let ghost before = self.layers@;
        match self.find_layer(map_layer) {
            Some(index) => {
                self.layers[index].data.set_tile_entity(chunk_tile_pos, entity);
                proof {
                    lemma_slot_change(before, self.layers@, index as int);
                }
            },
            None => {},
        }
    }
}

/// When one slot of distinct slots gets new contents for the same layer,
/// the slots stay distinct and the layers they hold change at that layer
/// alone.
proof fn lemma_slot_change(before: Seq<ChunkLayer>, after: Seq<ChunkLayer>, index: int)
    requires
        distinct_slots(before),
        0 <= index < before.len(),
        after.len() == before.len(),
        after[index].bits == before[index].bits,
        forall|i: int| 0 <= i < before.len() && i != index ==> after[i] == before[i],
    ensures
        distinct_slots(after),
        layers_of(after) == layers_of(before).insert(before[index].bits, after[index].data@),
{
    assert forall|i: int| 0 <= i < before.len() implies after[i].bits == before[i].bits by {}
    assert forall|i: int, j: int| 0 <= i < j < after.len() implies after[i].bits
        != after[j].bits by {
        assert(before[i].bits != before[j].bits);
    }
    assert forall|bits: u32| has_slot(after, bits) <==> has_slot(before, bits) by {
        if has_slot(after, bits) {
            let i = slot_of(after, bits);
            assert(before[i].bits == bits);
        }
        if has_slot(before, bits) {
            let i = slot_of(before, bits);
            assert(after[i].bits == bits);
        }
    }
    lemma_slot_of(before, index);
    lemma_slot_of(after, index);
    assert forall|bits: u32| has_slot(after, bits) && bits != before[index].bits implies after[slot_of(
        after,
        bits,
    )].data@ == before[slot_of(before, bits)].data@ by {
        let i = slot_of(before, bits);
        assert(after[i].bits == bits);
        lemma_slot_of(after, i);
    }
    assert(layers_of(after) =~= layers_of(before).insert(before[index].bits, after[index].data@));
}

} // verus!
