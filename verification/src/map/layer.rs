//! The storage of one layer of one chunk, dense or sparse, and the identity
//! of a layer.

use crate::map::coords::{ChunkTilePos, Dimensions, EntityHandle, TileData};
use crate::map::dense_grid::{
    grid_cells, grid_clone, grid_from_vec, grid_get, grid_get_mut, grid_init, grid_new,
    grid_shape, grid_size, grid_size_of, in_grid, max_cells,
};
use crate::map::tile_table::TileTable;
use grid::Grid;
use vstd::prelude::*;

verus! {

/// The cells of a grid, read by tile position: the tile at `(x, y)` is the
/// cell in row `y` and column `x`.
pub open spec fn tiles_of_grid(grid: Grid<u64>) -> Map<ChunkTilePos, TileData> {
    Map::new(
        |pos: ChunkTilePos| in_grid(grid_size(grid), pos.y as usize, pos.x as usize),
        |pos: ChunkTilePos| grid_cells(grid)[(pos.y as usize, pos.x as usize)],
    )
}

/// The tiles of a dense layer of `width` by `height` tiles in which the tile
/// at `(x, y)` holds `cell(x, y)`.
pub open spec fn dense_tiles(
    width: usize,
    height: usize,
    cell: spec_fn(ChunkTilePos) -> TileData,
) -> Map<ChunkTilePos, TileData> {
    Map::new(|pos: ChunkTilePos| pos.x < width && pos.y < height, cell)
}

/// The dimensions that a dense layer made for `width` by `height` tiles
/// reports: a layer without columns or without rows has neither, and a count
/// beyond 32 bits is cut to its low 32 bits.
pub open spec fn dense_dimensions(width: usize, height: usize) -> Dimensions {
    Dimensions { x: grid_shape(height, width).1 as u32, y: grid_shape(height, width).0 as u32 }
}

/// Whether the rows are the rows of a rectangle: there is a first row, and
/// every row is as long as the first.
pub open spec fn is_rectangular(rows: Seq<Vec<TileData>>) -> bool {
    rows.len() > 0 && forall|r: int| 0 <= r < rows.len() ==> (#[trigger] rows[r])@.len() == rows[0]@.len()
}

/// Whether a dense layer of `width` by `height` tiles fits one grid: whether
/// its cells fit one allocation.
pub fn fits_dense_layer(width: usize, height: usize) -> (fits: bool)
    ensures
        fits == (width * height <= max_cells()),
{
    let limit: usize = isize::MAX as usize / 8;
    if width == 0 || height == 0 {
        proof {
            assert(width * height == 0) by (nonlinear_arith)
                requires
                    width == 0 || height == 0,
            ;
        }
        return true;
    }
    let most: usize = limit / width;
    proof {
        vstd::arithmetic::div_mod::lemma_fundamental_div_mod(limit as int, width as int);
        vstd::arithmetic::div_mod::lemma_mod_bound(limit as int, width as int);
        let w = width as int;
        let h = height as int;
        let m = most as int;
        let l = limit as int;
        assert((h <= m) == (w * h <= l)) by (nonlinear_arith)
            requires
                l == w * m + l % w,
                0 <= l % w < w,
                w > 0,
                h > 0,
                m >= 0,
        ;
    }
    height <= most
}

/// Whether the rows are the rows of a rectangle: there is a first row, and
/// every row is as long as the first.
pub fn rows_are_rectangular(rows: &Vec<Vec<TileData>>) -> (rectangular: bool)
    ensures
        rectangular == is_rectangular(rows@),
{
    if rows.len() == 0 {
        return false;
    }
    let row_length = rows[0].len();
    let mut current_y: usize = 1;
    while current_y < rows.len()
        invariant
            1 <= current_y <= rows@.len(),
            row_length == rows@[0]@.len(),
            forall|r: int| 0 <= r < current_y ==> (#[trigger] rows@[r])@.len() == row_length,
        decreases rows@.len() - current_y,
    {
        if rows[current_y].len() != row_length {
            return false;
        }
        current_y += 1;
    }
    true
}

/// The place of the cell in row `row` and column `col` among the cells of a
/// grid with `cols` columns, counted row by row.
spec fn cell_index(row: int, col: int, cols: int) -> int {
    row * cols + col
}

/// A cell inside a grid has its place among the grid's cells.
proof fn lemma_cell_index_in_range(row: int, col: int, rows: int, cols: int)
    requires
        0 <= row < rows,
        0 <= col < cols,
    ensures
        0 <= cell_index(row, col, cols) < rows * cols,
        cell_index(row, col, cols) < (row + 1) * cols,
        row * cols <= cell_index(row, col, cols),
{
    assert(0 <= row * cols && row * cols + cols == (row + 1) * cols && (row + 1) * cols <= rows
        * cols) by (nonlinear_arith)
        requires
            0 <= row < rows,
            0 <= col < cols,
    ;
}

/// `rows` rows of `cols` cells make exactly `rows` whole rows.
proof fn lemma_whole_rows(rows: nat, cols: nat)
    requires
        cols > 0,
    ensures
        (rows * cols) % cols == 0,
        (rows * cols) / cols == rows,
{
    vstd::arithmetic::div_mod::lemma_mod_multiples_basic(rows as int, cols as int);
    vstd::arithmetic::div_mod::lemma_div_multiples_vanish(rows as int, cols as int);
    assert(rows * cols == cols * rows) by (nonlinear_arith);
}

/// How one layer of one chunk keeps its tile data.
///
/// A sparse layer holds a table of the tiles that were set, and the
/// dimensions of its chunk; a tile that was never set has no data. A dense
/// layer holds a grid with a value in every cell.
pub enum LayerTypes {
    Sparse(TileTable, Dimensions),
    Dense(Grid<u64>),
}

impl LayerTypes {
    /// Whether the layer is dense.
    pub open spec fn is_dense(&self) -> bool {
        self is Dense
    }

    /// The tiles that hold data, each with its data.
    pub open spec fn tiles(&self) -> Map<ChunkTilePos, TileData> {
        match self {
            LayerTypes::Sparse(table, _) => table@,
            LayerTypes::Dense(grid) => tiles_of_grid(*grid),
        }
    }

    /// The dimensions of the layer: those it was made with when it is
    /// sparse, the shape of its grid when it is dense.
    pub open spec fn spec_dimensions(&self) -> Dimensions {
        match self {
            LayerTypes::Sparse(_, dimensions) => *dimensions,
            LayerTypes::Dense(grid) => Dimensions {
                x: grid_size(*grid).1 as u32,
                y: grid_size(*grid).0 as u32,
            },
        }
    }

    /// A dense layer of `chunk_size_x` by `chunk_size_y` tiles in which
    /// every tile holds the default data, zero.
    pub fn new_dense_default(chunk_size_x: usize, chunk_size_y: usize) -> (layer: Self)
        requires
            chunk_size_x * chunk_size_y <= max_cells(),
        ensures
            layer.is_dense(),
            layer.spec_dimensions() == dense_dimensions(chunk_size_x, chunk_size_y),
            layer.tiles() == dense_tiles(chunk_size_x, chunk_size_y, |pos: ChunkTilePos| 0u64),
    {
        proof {
            assert(chunk_size_y * chunk_size_x == chunk_size_x * chunk_size_y) by (nonlinear_arith);
        }
        let grid = grid_new(chunk_size_y, chunk_size_x);
        let layer = LayerTypes::Dense(grid);
        proof {
            assert(layer.tiles() =~= dense_tiles(
                chunk_size_x,
                chunk_size_y,
                |pos: ChunkTilePos| 0u64,
            ));
        }
        layer
    }

    /// A dense layer of `chunk_size_x` by `chunk_size_y` tiles in which
    /// every tile holds `tile_data`.
    pub fn new_dense_uniform(chunk_size_x: usize, chunk_size_y: usize, tile_data: TileData) -> (layer:
        Self)
        requires
            chunk_size_x * chunk_size_y <= max_cells(),
        ensures
            layer.is_dense(),
            layer.spec_dimensions() == dense_dimensions(chunk_size_x, chunk_size_y),
            layer.tiles() == dense_tiles(
                chunk_size_x,
                chunk_size_y,
                |pos: ChunkTilePos| tile_data,
            ),
    {
        proof {
            assert(chunk_size_y * chunk_size_x == chunk_size_x * chunk_size_y) by (nonlinear_arith);
        }
        let grid = grid_init(chunk_size_y, chunk_size_x, tile_data);
        let layer = LayerTypes::Dense(grid);
        proof {
            assert(layer.tiles() =~= dense_tiles(
                chunk_size_x,
                chunk_size_y,
                |pos: ChunkTilePos| tile_data,
            ));
        }
        layer
    }

    /// A dense layer built from rows of tile data: the tile at `(x, y)` holds
    /// `tile_data[y][x]`. The rows must be the rows of a rectangle.
    pub fn new_dense_from_vecs(tile_data: &Vec<Vec<TileData>>) -> (layer: Self)
        requires
            is_rectangular(tile_data@),
        ensures
            layer.is_dense(),
            layer.spec_dimensions() == dense_dimensions(
                tile_data@[0]@.len() as usize,
                tile_data@.len() as usize,
            ),
            layer.tiles() == dense_tiles(
                tile_data@[0]@.len() as usize,
                tile_data@.len() as usize,
                |pos: ChunkTilePos| tile_data@[pos.y as int]@[pos.x as int],
            ),
    {
        let row_count = tile_data.len();
        let row_length = tile_data[0].len();
        let mut cells: Vec<TileData> = Vec::new();
        let mut current_y: usize = 0;
        while current_y < row_count
            invariant
                is_rectangular(tile_data@),
                row_count == tile_data@.len(),
                row_length == tile_data@[0]@.len(),
                current_y <= row_count,
                cells@.len() == current_y * row_length,
                forall|r: int, c: int|
                    0 <= r < current_y && 0 <= c < row_length ==> cells@[cell_index(
                        r,
                        c,
                        row_length as int,
                    )] == #[trigger] tile_data@[r]@[c],
            decreases row_count - current_y,
        {
            let row = &tile_data[current_y];
            let mut current_x: usize = 0;
            while current_x < row_length
                invariant
                    is_rectangular(tile_data@),
                    row_count == tile_data@.len(),
                    row_length == tile_data@[0]@.len(),
                    current_y < row_count,
                    current_x <= row_length,
                    row@ == tile_data@[current_y as int]@,
                    cells@.len() == current_y * row_length + current_x,
                    forall|r: int, c: int|
                        0 <= r < current_y && 0 <= c < row_length ==> cells@[cell_index(
                            r,
                            c,
                            row_length as int,
                        )] == #[trigger] tile_data@[r]@[c],
                    forall|c: int|
                        0 <= c < current_x ==> cells@[cell_index(
                            current_y as int,
                            c,
                            row_length as int,
                        )] == #[trigger] tile_data@[current_y as int]@[c],
                decreases row_length - current_x,
            {
                let ghost before = cells@;
                cells.push(row[current_x]);
                proof {
                    assert forall|r: int, c: int|
                        0 <= r < current_y && 0 <= c < row_length implies cells@[cell_index(
                        r,
                        c,
                        row_length as int,
                    )] == #[trigger] tile_data@[r]@[c] by {
                        lemma_cell_index_in_range(r, c, current_y as int, row_length as int);
                        assert(cells@[cell_index(r, c, row_length as int)] == before[cell_index(
                            r,
                            c,
                            row_length as int,
                        )]);
                    }
                    assert forall|c: int| 0 <= c < current_x + 1 implies cells@[cell_index(
                        current_y as int,
                        c,
                        row_length as int,
                    )] == #[trigger] tile_data@[current_y as int]@[c] by {
                        if c < current_x {
                            assert(cells@[cell_index(current_y as int, c, row_length as int)]
                                == before[cell_index(current_y as int, c, row_length as int)]);
                        }
                    }
                }
                current_x += 1;
            }
            proof {
                assert(current_y * row_length + row_length == (current_y + 1) * row_length)
                    by (nonlinear_arith);
            }
            current_y += 1;
        }
        proof {
            if row_length > 0 {
                lemma_whole_rows(row_count as nat, row_length as nat);
            } else {
                assert(row_count * row_length == 0) by (nonlinear_arith)
                    requires
                        row_length == 0,
                ;
            }
        }
        let ghost values = cells@;
        let grid = grid_from_vec(cells, row_length);
        let layer = LayerTypes::Dense(grid);
        proof {
            assert forall|pos: ChunkTilePos|
                pos.x < row_length && pos.y < row_count implies #[trigger] layer.tiles()[pos]
                == tile_data@[pos.y as int]@[pos.x as int] by {
                lemma_cell_index_in_range(
                    pos.y as int,
                    pos.x as int,
                    row_count as int,
                    row_length as int,
                );
                assert(values[cell_index(pos.y as int, pos.x as int, row_length as int)]
                    == tile_data@[pos.y as int]@[pos.x as int]);
            }
            assert(layer.tiles() =~= dense_tiles(
                row_length,
                row_count,
                |pos: ChunkTilePos| tile_data@[pos.y as int]@[pos.x as int],
            ));
        }
        layer
    }

    /// The dimensions of the layer.
    pub fn get_dimensions(&self) -> (dimensions: Dimensions)
        ensures
            dimensions == self.spec_dimensions(),
    {
        match self {
            LayerTypes::Sparse(_, dimensions) => *dimensions,
            LayerTypes::Dense(grid) => {
                let size = grid_size_of(grid);
                Dimensions::new(
                    #[verifier::truncate]
                    (size.1 as u32),
                    #[verifier::truncate]
                    (size.0 as u32),
                )
            },
        }
    }

    /// Stores `tile_data` at `chunk_tile_pos`. A sparse layer takes any
    /// position. A dense layer overwrites the cell when the position lies
    /// inside its grid and is left unchanged when it does not.
    pub fn set_tile_data(&mut self, chunk_tile_pos: ChunkTilePos, tile_data: TileData)
        ensures
            final(self).is_dense() == old(self).is_dense(),
            final(self).spec_dimensions() == old(self).spec_dimensions(),
            final(self).tiles() == (if old(self).is_dense() && !old(self).tiles().contains_key(
                chunk_tile_pos,
            ) {
                old(self).tiles()
            } else {
                old(self).tiles().insert(chunk_tile_pos, tile_data)
            }),
    {
        match self {
            LayerTypes::Sparse(layer_data, _) => {
                let _ = layer_data.insert(chunk_tile_pos, tile_data);
            },
            LayerTypes::Dense(layer_data) => {
                if let Some(tile) = grid_get_mut(
                    layer_data,
                    chunk_tile_pos.y as usize,
                    chunk_tile_pos.x as usize,
                ) {
                    *tile = tile_data;
                }
            },
        }
        proof {
            if old(self).is_dense() && !old(self).tiles().contains_key(chunk_tile_pos) {
                assert(final(self).tiles() =~= old(self).tiles());
            } else {
                assert(final(self).tiles() =~= old(self).tiles().insert(chunk_tile_pos, tile_data));
            }
        }
    }

    /// Mutable access to the data of the tile at `chunk_tile_pos`, if the
    /// layer holds any there. The layer changes only by what the caller
    /// writes into that tile.
    pub fn get_tile_data_mut(&mut self, chunk_tile_pos: ChunkTilePos) -> (tile: Option<
        &mut TileData,
    >)
        ensures
            final(self).is_dense() == old(self).is_dense(),
            final(self).spec_dimensions() == old(self).spec_dimensions(),
            match tile {
                Some(data) => old(self).tiles().contains_key(chunk_tile_pos) && *data == old(
                    self,
                ).tiles()[chunk_tile_pos] && final(self).tiles() =~= old(self).tiles().insert(
                    chunk_tile_pos,
                    *final(data),
                ),
                None => !old(self).tiles().contains_key(chunk_tile_pos) && final(self).tiles()
                    =~= old(self).tiles(),
            },
    {
        match self {
            LayerTypes::Sparse(layer_data, _) => layer_data.get_mut(chunk_tile_pos),
            LayerTypes::Dense(layer_data) => grid_get_mut(
                layer_data,
                chunk_tile_pos.y as usize,
                chunk_tile_pos.x as usize,
            ),
        }
    }

    /// The data of the tile at `chunk_tile_pos`, if the layer holds any
    /// there.
    pub fn get_tile_data(&self, chunk_tile_pos: ChunkTilePos) -> (tile: Option<&TileData>)
        ensures
            tile == (if self.tiles().contains_key(chunk_tile_pos) {
                Some(&self.tiles()[chunk_tile_pos])
            } else {
                None
            }),
    {
        match self {
            LayerTypes::Sparse(layer_data, _) => layer_data.get(chunk_tile_pos),
            LayerTypes::Dense(layer_data) => grid_get(
                layer_data,
                chunk_tile_pos.y as usize,
                chunk_tile_pos.x as usize,
            ),
        }
    }
}

impl Default for LayerTypes {
    /// A dense layer without tiles.
    fn default() -> (layer: Self)
        ensures
            layer.is_dense(),
            layer.spec_dimensions() == (Dimensions { x: 0, y: 0 }),
            layer.tiles() == Map::<ChunkTilePos, TileData>::empty(),
    {
        let layer = LayerTypes::Dense(grid_new(0, 0));
        proof {
            assert(layer.tiles() =~= Map::<ChunkTilePos, TileData>::empty());
        }
        layer
    }
}

impl Clone for LayerTypes {
    /// A layer of the same kind with the same dimensions and tiles.
    fn clone(&self) -> (copy: Self)
        ensures
            copy.is_dense() == self.is_dense(),
            copy.spec_dimensions() == self.spec_dimensions(),
            copy.tiles() == self.tiles(),
    {
        match self {
            LayerTypes::Sparse(layer_data, dimensions) => LayerTypes::Sparse(
                layer_data.clone(),
                *dimensions,
            ),
            LayerTypes::Dense(layer_data) => LayerTypes::Dense(grid_clone(layer_data)),
        }
    }
}

/// The entities whose bits a table holds, each under the position of its
/// tile.
pub open spec fn entities_of_table(entries: Map<ChunkTilePos, u64>) -> Map<
    ChunkTilePos,
    EntityHandle,
> {
    Map::new(
        |pos: ChunkTilePos| entries.contains_key(pos),
        |pos: ChunkTilePos| EntityHandle { bits: entries[pos] },
    )
}

/// What one layer of one chunk holds, as plain mathematical values.
pub struct LayerView {
    /// Whether the tile data is kept densely.
    pub dense: bool,
    /// The dimensions of the layer.
    pub dimensions: Dimensions,
    /// The tiles that hold data, each with its data.
    pub tiles: Map<ChunkTilePos, TileData>,
    /// The tiles that have an entity, each with its entity.
    pub entities: Map<ChunkTilePos, EntityHandle>,
}

impl LayerView {
    /// A sparse layer of the given dimensions without data or entities.
    pub open spec fn sparse_empty(dimensions: Dimensions) -> LayerView {
        LayerView { dense: false, dimensions, tiles: Map::empty(), entities: Map::empty() }
    }

    /// A dense layer of `width` by `height` tiles in which the tile at
    /// `(x, y)` holds `cell(x, y)`, without entities.
    pub open spec fn dense(
        width: usize,
        height: usize,
        cell: spec_fn(ChunkTilePos) -> TileData,
    ) -> LayerView {
        LayerView {
            dense: true,
            dimensions: dense_dimensions(width, height),
            tiles: dense_tiles(width, height, cell),
            entities: Map::empty(),
        }
    }

    /// The data of the tile at `pos`, if the layer holds any there.
    pub open spec fn tile(self, pos: ChunkTilePos) -> Option<TileData> {
        if self.tiles.contains_key(pos) {
            Some(self.tiles[pos])
        } else {
            None
        }
    }

    /// The entity of the tile at `pos`, if one was set.
    pub open spec fn entity(self, pos: ChunkTilePos) -> Option<EntityHandle> {
        if self.entities.contains_key(pos) {
            Some(self.entities[pos])
        } else {
            None
        }
    }

    /// Whether storing tile data at `pos` changes the layer: always for a
    /// sparse layer, and for a dense layer when the position is in its grid.
    pub open spec fn takes_tile(self, pos: ChunkTilePos) -> bool {
        !self.dense || self.tiles.contains_key(pos)
    }

    /// The layer after `data` was stored at `pos`.
    pub open spec fn with_tile(self, pos: ChunkTilePos, data: TileData) -> LayerView {
        if self.takes_tile(pos) {
            LayerView { tiles: self.tiles.insert(pos, data), ..self }
        } else {
            self
        }
    }

    /// The layer after `entity` was made the entity of the tile at `pos`.
    pub open spec fn with_entity(self, pos: ChunkTilePos, entity: EntityHandle) -> LayerView {
        LayerView { entities: self.entities.insert(pos, entity), ..self }
    }
}

/// A sparse layer that was just made holds no data at any position. After
/// data was stored at one position, that position holds the data and every
/// other position still holds none.
pub proof fn lemma_sparse_layer_holds_what_was_set(
    dimensions: Dimensions,
    set_at: ChunkTilePos,
    data: TileData,
    read_at: ChunkTilePos,
)
    ensures
        LayerView::sparse_empty(dimensions).tile(read_at) is None,
        LayerView::sparse_empty(dimensions).with_tile(set_at, data).tile(read_at) == (if read_at
            == set_at {
            Some(data)
        } else {
            None
        }),
{
}

/// Storing data twice at one position leaves the second data there, and
/// leaves the layer as if only the second had been stored: the layer holds
/// no more tiles than after the first.
pub proof fn lemma_second_write_wins(
    layer: LayerView,
    pos: ChunkTilePos,
    first: TileData,
    second: TileData,
)
    ensures
        layer.with_tile(pos, first).with_tile(pos, second) == layer.with_tile(pos, second),
        layer.takes_tile(pos) ==> layer.with_tile(pos, first).with_tile(pos, second).tile(pos)
            == Some(second),
        layer.with_tile(pos, first).with_tile(pos, second).tiles.dom() == layer.with_tile(
            pos,
            first,
        ).tiles.dom(),
{
    let once = layer.with_tile(pos, first);
    let twice = once.with_tile(pos, second);
    if layer.takes_tile(pos) {
        assert(twice.tiles =~= layer.tiles.insert(pos, second));
        assert(twice.tiles.dom() =~= once.tiles.dom());
    }
}

/// One layer of one chunk: its tile data, and the entity that belongs to
/// each tile that has one. The two are independent: a tile may have data and
/// no entity, or an entity and no data.
pub struct LayerChunkData {
    layer_type_data: LayerTypes,
    tile_entities: TileTable,
}

impl View for LayerChunkData {
    type V = LayerView;

    /// What the layer holds.
    closed spec fn view(&self) -> LayerView {
        LayerView {
            dense: self.layer_type_data.is_dense(),
            dimensions: self.layer_type_data.spec_dimensions(),
            tiles: self.layer_type_data.tiles(),
            entities: entities_of_table(self.tile_entities@),
        }
    }
}

impl LayerChunkData {
    /// A sparse layer without tile data and without entities.
    pub fn new_sparse_layer_empty(chunk_dimensions: Dimensions) -> (layer: LayerChunkData)
        ensures
            layer@ == LayerView::sparse_empty(chunk_dimensions),
    {
        let layer = LayerChunkData {
            layer_type_data: LayerTypes::Sparse(TileTable::new(), chunk_dimensions),
            tile_entities: TileTable::new(),
        };
        proof {
            assert(layer@.tiles =~= Map::<ChunkTilePos, TileData>::empty());
            assert(layer@.entities =~= Map::<ChunkTilePos, EntityHandle>::empty());
        }
        layer
    }

    /// A sparse layer that holds the tile data of `sparse_data`, and no
    /// entities.
    pub fn new_sparse_layer_from_data(sparse_data: TileTable, chunk_dimensions: Dimensions) -> (layer:
        LayerChunkData)
        ensures
            layer@ == (LayerView {
                tiles: sparse_data@,
                ..LayerView::sparse_empty(chunk_dimensions)
            }),
    {
        let layer = LayerChunkData {
            layer_type_data: LayerTypes::Sparse(sparse_data, chunk_dimensions),
            tile_entities: TileTable::new(),
        };
        proof {
            assert(layer@.entities =~= Map::<ChunkTilePos, EntityHandle>::empty());
        }
        layer
    }

    /// A dense layer of `chunk_size_x` by `chunk_size_y` tiles that all hold
    /// the default data, zero; no tile has an entity.
    pub fn new_dense_default_layer(chunk_size_x: usize, chunk_size_y: usize) -> (layer: Self)
        requires
            chunk_size_x * chunk_size_y <= max_cells(),
        ensures
            layer@ == LayerView::dense(chunk_size_x, chunk_size_y, |pos: ChunkTilePos| 0u64),
    {
        let layer = Self {
            layer_type_data: LayerTypes::new_dense_default(chunk_size_x, chunk_size_y),
            tile_entities: TileTable::new(),
        };
        proof {
            assert(layer@.entities =~= Map::<ChunkTilePos, EntityHandle>::empty());
        }
        layer
    }

    /// A dense layer of `chunk_size_x` by `chunk_size_y` tiles that all hold
    /// `tile_data`; no tile has an entity.
    pub fn new_dense_uniform_layer(
        chunk_size_x: usize,
        chunk_size_y: usize,
        tile_data: TileData,
    ) -> (layer: Self)
        requires
            chunk_size_x * chunk_size_y <= max_cells(),
        ensures
            layer@ == LayerView::dense(
                chunk_size_x,
                chunk_size_y,
                |pos: ChunkTilePos| tile_data,
            ),
    {
        let layer = Self {
            layer_type_data: LayerTypes::new_dense_uniform(chunk_size_x, chunk_size_y, tile_data),
            tile_entities: TileTable::new(),
        };
        proof {
            assert(layer@.entities =~= Map::<ChunkTilePos, EntityHandle>::empty());
        }
        layer
    }

    /// A dense layer built from rows of tile data: the tile at `(x, y)` holds
    /// `tile_data[y][x]`; no tile has an entity. The rows must be the rows of
    /// a rectangle.
    pub fn new_dense_from_vecs_layer(tile_data: &Vec<Vec<TileData>>) -> (layer: Self)
        requires
            is_rectangular(tile_data@),
        ensures
            layer@ == LayerView::dense(
                tile_data@[0]@.len() as usize,
                tile_data@.len() as usize,
                |pos: ChunkTilePos| tile_data@[pos.y as int]@[pos.x as int],
            ),
    {
        let layer = Self {
            layer_type_data: LayerTypes::new_dense_from_vecs(tile_data),
            tile_entities: TileTable::new(),
        };
        proof {
            assert(layer@.entities =~= Map::<ChunkTilePos, EntityHandle>::empty());
        }
        layer
    }

    /// The dimensions of the layer.
    pub fn get_chunk_dimensions(&self) -> (dimensions: Dimensions)
        ensures
            dimensions == self@.dimensions,
    {
        self.layer_type_data.get_dimensions()
    }

    /// Mutable access to the data of the tile at `chunk_tile_pos`, if the
    /// layer holds any there. The layer changes only by what the caller
    /// writes into that tile.
    pub fn get_tile_data_mut(&mut self, chunk_tile_pos: ChunkTilePos) -> (tile: Option<
        &mut TileData,
    >)
        ensures
            match tile {
                Some(data) => old(self)@.tile(chunk_tile_pos) == Some(*data) && final(self)@ == (
                LayerView {
                    tiles: old(self)@.tiles.insert(chunk_tile_pos, *final(data)),
                    ..old(self)@
                }),
                None => old(self)@.tile(chunk_tile_pos) is None && final(self)@ == old(self)@,
            },
    {
        self.layer_type_data.get_tile_data_mut(chunk_tile_pos)
    }

    /// The data of the tile at `chunk_tile_pos`, if the layer holds any
    /// there.
    pub fn get_tile_data(&self, chunk_tile_pos: ChunkTilePos) -> (tile: Option<&TileData>)
        ensures
            tile == (match self@.tile(chunk_tile_pos) {
                Some(data) => Some(&data),
                None => None,
            }),
    {
        self.layer_type_data.get_tile_data(chunk_tile_pos)
    }

    /// Stores `tile_data` at `chunk_tile_pos`. A sparse layer takes any
    /// position; a dense layer ignores a position outside its grid. The
    /// entities stay as they are.
    pub fn set_tile_data(&mut self, chunk_tile_pos: ChunkTilePos, tile_data: TileData)
        ensures
            final(self)@ == old(self)@.with_tile(chunk_tile_pos, tile_data),
    {
        self.layer_type_data.set_tile_data(chunk_tile_pos, tile_data);
    }

    /// The entity of the tile at `chunk_tile_pos`, if one was set.
    pub fn get_tile_entity(&self, chunk_tile_pos: ChunkTilePos) -> (entity: Option<EntityHandle>)
        ensures
            entity == self@.entity(chunk_tile_pos),
    {
        match self.tile_entities.get(chunk_tile_pos) {
            Some(bits) => Some(EntityHandle::from_bits(*bits)),
            None => None,
        }
    }

    /// Makes `entity` the entity of the tile at `chunk_tile_pos`, in place of
    /// any earlier one. The tile data stays as it is.
    pub fn set_tile_entity(&mut self, chunk_tile_pos: ChunkTilePos, entity: EntityHandle)
        ensures
            final(self)@ == old(self)@.with_entity(chunk_tile_pos, entity),
    {
        let _ = self.tile_entities.insert(chunk_tile_pos, entity.to_bits());
        proof {
            assert(final(self)@.entities =~= old(self)@.entities.insert(chunk_tile_pos, entity));
        }
    }
}

impl Default for LayerChunkData {
    /// A dense layer without tiles and without entities.
    fn default() -> (layer: Self)
        ensures
            layer@ == (LayerView {
                dense: true,
                dimensions: Dimensions { x: 0, y: 0 },
                tiles: Map::empty(),
                entities: Map::empty(),
            }),
    {
        let layer = LayerChunkData {
            layer_type_data: LayerTypes::default(),
            tile_entities: TileTable::new(),
        };
        proof {
            assert(layer@.entities =~= Map::<ChunkTilePos, EntityHandle>::empty());
        }
        layer
    }
}

impl Clone for LayerChunkData {
    /// A layer that holds the same.
    fn clone(&self) -> (copy: Self)
        ensures
            copy@ == self@,
    {
        LayerChunkData {
            layer_type_data: self.layer_type_data.clone(),
            tile_entities: self.tile_entities.clone(),
        }
    }
}

/// The identity of a layer of a tile map.
///
/// An application names its layers by the variants of an enum and gives
/// each variant one bit of a 32-bit mask. The bit keys the layer inside a
/// chunk, and masks of several bits select several layers at once.
///
/// The bits of a layer are a function of the layer alone, and the bits of
/// all layers are a function of the type alone: `spec_to_bits` and
/// `spec_all_bits` name them, and the two methods return what they name.
/// Nothing more is promised of an implementation. That each layer has one
/// bit of its own is for the implementor to see to; `check_layer_bits`
/// tests a table of masks for it.
pub trait MapLayer: Sized {
    /// The bit of the layer that is selected when none was chosen.
    const DEFAULT: u32 = 1u32 << 0;

    /// The bit of this layer.
    spec fn spec_to_bits(&self) -> u32;

    /// The bits of all layers together.
    spec fn spec_all_bits() -> u32;

    /// The bit of this layer.
    fn to_bits(&self) -> (bits: u32)
        ensures
            bits == self.spec_to_bits(),
    ;

    /// The bits of all layers together.
    fn all_bits() -> (bits: u32)
        ensures
            bits == Self::spec_all_bits(),
    ;
}

/// A reference to a layer is that layer: it has the bits of the layer that
/// it refers to, and its type has the bits of all layers of that type.
impl<L: MapLayer> MapLayer for &L {
    open spec fn spec_to_bits(&self) -> u32 {
        (**self).spec_to_bits()
    }

    open spec fn spec_all_bits() -> u32 {
        L::spec_all_bits()
    }

    fn to_bits(&self) -> (bits: u32) {
        L::to_bits(self)
    }

    fn all_bits() -> (bits: u32) {
        L::all_bits()
    }
}

} // verus!
