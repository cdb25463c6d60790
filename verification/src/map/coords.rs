//! Coordinate types of a chunked tile map and the conversions between them.

use vstd::prelude::*;

verus! {

/// Opaque application data of one tile: a 64-bit word whose meaning belongs
/// to the application.
pub type TileData = u64;

/// A weak reference to an entity of the host engine, kept as the 64 bits that
/// identify it. The library stores and returns handles and never looks
/// inside one.
#[derive(Clone, Copy, Debug, PartialEq, Eq, Structural, Hash)]
pub struct EntityHandle {
    pub bits: u64,
}

/// A width and a height counted in tiles: the size of a chunk or of a map.
#[derive(Clone, Copy, Debug, PartialEq, Eq, Structural, Hash)]
pub struct Dimensions {
    pub x: u32,
    pub y: u32,
}

/// The address of one tile in the coordinates of the whole map. Either
/// coordinate may be negative.
#[derive(Clone, Copy, Debug, PartialEq, Eq, Structural, Hash)]
pub struct GlobalCell {
    pub x: i32,
    pub y: i32,
}

/// The address of one chunk in the grid of chunks.
#[derive(Clone, Copy, Debug, PartialEq, Eq, Structural, Hash)]
pub struct ChunkPos {
    pub x: i32,
    pub y: i32,
}

/// The address of one tile inside its chunk, counted from the chunk's origin.
#[derive(Clone, Copy, Debug, PartialEq, Eq, Structural, Hash)]
pub struct ChunkTilePos {
    pub x: u32,
    pub y: u32,
}

impl EntityHandle {
    /// The handle with the given bits.
    pub fn from_bits(bits: u64) -> (handle: EntityHandle)
        ensures
            handle.bits == bits,
    {
        EntityHandle { bits }
    }

    /// The bits that identify the entity.
    pub fn to_bits(&self) -> (bits: u64)
        ensures
            bits == self.bits,
    {
        self.bits
    }
}

impl Dimensions {
    /// The dimensions `x` tiles wide and `y` tiles high.
    pub fn new(x: u32, y: u32) -> (dimensions: Dimensions)
        ensures
            dimensions.x == x,
            dimensions.y == y,
    {
        Dimensions { x, y }
    }
}

impl ChunkTilePos {
    /// The position in column `x` and row `y` of a chunk.
    pub fn new(x: u32, y: u32) -> (pos: ChunkTilePos)
        ensures
            pos.x == x,
            pos.y == y,
    {
        ChunkTilePos { x, y }
    }

    /// The column of the tile.
    pub fn x(&self) -> (x: u32)
        ensures
            x == self.x,
    {
        self.x
    }

    /// The row of the tile.
    pub fn y(&self) -> (y: u32)
        ensures
            y == self.y,
    {
        self.y
    }
}

impl GlobalCell {
    /// The cell at `(x, y)` of the map.
    pub fn new(x: i32, y: i32) -> (cell: GlobalCell)
        ensures
            cell.x == x,
            cell.y == y,
    {
        GlobalCell { x, y }
    }
}

impl ChunkPos {
    /// The chunk in column `x` and row `y` of the grid of chunks.
    pub fn new(x: i32, y: i32) -> (pos: ChunkPos)
        ensures
            pos.x == x,
            pos.y == y,
    {
        ChunkPos { x, y }
    }
}

/// The chunk and the place inside that chunk of the global cell `global`,
/// in a map cut into chunks of `chunk_dimensions`. Each axis is divided
/// rounding down, so that the place inside the chunk is never negative.
pub open spec fn spec_global_to_chunk(global: GlobalCell, chunk_dimensions: Dimensions) -> (
    ChunkPos,
    ChunkTilePos,
) {
    (
        ChunkPos {
            x: ((global.x as int) / (chunk_dimensions.x as int)) as i32,
            y: ((global.y as int) / (chunk_dimensions.y as int)) as i32,
        },
        ChunkTilePos {
            x: ((global.x as int) % (chunk_dimensions.x as int)) as u32,
            y: ((global.y as int) % (chunk_dimensions.y as int)) as u32,
        },
    )
}

/// The coordinates, as integers without bound, of the tile at `local` of the
/// chunk `chunk_pos`.
pub open spec fn global_coordinates(
    chunk_pos: ChunkPos,
    local: ChunkTilePos,
    chunk_dimensions: Dimensions,
) -> (int, int) {
    (
        chunk_pos.x * chunk_dimensions.x + local.x,
        chunk_pos.y * chunk_dimensions.y + local.y,
    )
}

/// Whether the tile at `local` of the chunk `chunk_pos` has coordinates that
/// a global cell can hold.
pub open spec fn has_global_cell(
    chunk_pos: ChunkPos,
    local: ChunkTilePos,
    chunk_dimensions: Dimensions,
) -> bool {
    let (x, y) = global_coordinates(chunk_pos, local, chunk_dimensions);
    i32::MIN <= x <= i32::MAX && i32::MIN <= y <= i32::MAX
}

/// The global cell of the tile at `local` of the chunk `chunk_pos`.
pub open spec fn spec_chunk_to_global(
    chunk_pos: ChunkPos,
    local: ChunkTilePos,
    chunk_dimensions: Dimensions,
) -> GlobalCell {
    let (x, y) = global_coordinates(chunk_pos, local, chunk_dimensions);
    GlobalCell { x: x as i32, y: y as i32 }
}

/// Dividing a 32-bit coordinate by a chunk size, rounding down, gives a
/// quotient that a 32-bit coordinate holds and a remainder below the size.
pub proof fn lemma_axis_split(value: i32, size: u32)
    requires
        size > 0,
    ensures
        i32::MIN <= (value as int) / (size as int) <= i32::MAX,
        0 <= (value as int) % (size as int) < (size as int),
        ((value as int) / (size as int)) * (size as int) + (value as int) % (size as int) == (
        value as int),
{
    let v = value as int;
    let d = size as int;
    vstd::arithmetic::div_mod::lemma_fundamental_div_mod(v, d);
    vstd::arithmetic::div_mod::lemma_mod_bound(v, d);
    let q = v / d;
    let r = v % d;
    assert(d * q == q * d) by (nonlinear_arith);
    assert(i32::MIN <= q <= i32::MAX) by (nonlinear_arith)
        requires
            v == q * d + r,
            0 <= r < d,
            d >= 1,
            i32::MIN <= v <= i32::MAX,
    ;
}

/// One axis of `global_to_chunk`: the quotient and the remainder of `value`
/// by `size`, rounding down.
fn split_axis(value: i32, size: u32) -> (parts: (i32, u32))
    requires
        size > 0,
    ensures
        parts.0 == (value as int) / (size as int),
        parts.1 == (value as int) % (size as int),
{
    let divisor: u64 = size as u64;
    proof {
        lemma_axis_split(value, size);
    }
    if value >= 0 {
        let dividend: u64 = value as u64;
        let quotient: u64 = dividend / divisor;
        let remainder: u64 = dividend % divisor;
        (quotient as i32, remainder as u32)
    } else {
        let distance: u64 = (-(value as i64)) as u64;
        let steps: u64 = (distance + divisor - 1) / divisor;
        proof {
            let n = distance as int;
            let d = divisor as int;
            let t = n + d - 1;
            vstd::arithmetic::div_mod::lemma_fundamental_div_mod(t, d);
            vstd::arithmetic::div_mod::lemma_mod_bound(t, d);
            assert(d * (t / d) == (t / d) * d) by (nonlinear_arith);
            let s = steps as int;
            assert(s * d == t - t % d);
            assert(value as int == (-s) * d + (s * d - n)) by (nonlinear_arith)
                requires
                    value as int == -n,
            ;
            vstd::arithmetic::div_mod::lemma_fundamental_div_mod_converse(
                value as int,
                d,
                -s,
                s * d - n,
            );
        }
        let remainder: u64 = steps * divisor - distance;
        ((-(steps as i64)) as i32, remainder as u32)
    }
}

/// The chunk that holds the global cell `global`, and the place of the cell
/// inside that chunk, in a map cut into chunks of `chunk_dimensions`.
///
/// Each axis is divided rounding down, also for negative coordinates, so
/// the place inside the chunk lies within the chunk's dimensions, and the
/// chunk and the place together give the cell back.
pub fn global_to_chunk(global: GlobalCell, chunk_dimensions: Dimensions) -> (parts: (
    ChunkPos,
    ChunkTilePos,
))
    requires
        chunk_dimensions.x > 0,
        chunk_dimensions.y > 0,
    ensures
        parts == spec_global_to_chunk(global, chunk_dimensions),
        parts.1.x < chunk_dimensions.x,
        parts.1.y < chunk_dimensions.y,
        global_coordinates(parts.0, parts.1, chunk_dimensions) == (global.x as int, global.y as int),
{
    proof {
        lemma_axis_split(global.x, chunk_dimensions.x);
        lemma_axis_split(global.y, chunk_dimensions.y);
    }
    let (chunk_x, local_x) = split_axis(global.x, chunk_dimensions.x);
    let (chunk_y, local_y) = split_axis(global.y, chunk_dimensions.y);
    (ChunkPos { x: chunk_x, y: chunk_y }, ChunkTilePos { x: local_x, y: local_y })
}

/// The global cell of the tile at `local` of the chunk `chunk_pos`: on each
/// axis the chunk's coordinate times the chunk's size, plus the local
/// coordinate. The cell must have coordinates of 32 bits.
pub fn chunk_to_global(chunk_pos: ChunkPos, local: ChunkTilePos, chunk_dimensions: Dimensions) -> (global:
    GlobalCell)
    requires
        has_global_cell(chunk_pos, local, chunk_dimensions),
    ensures
        global == spec_chunk_to_global(chunk_pos, local, chunk_dimensions),
        (global.x as int, global.y as int) == global_coordinates(
            chunk_pos,
            local,
            chunk_dimensions,
        ),
{
    proof {
        lemma_product_fits(chunk_pos.x, chunk_dimensions.x);
        lemma_product_fits(chunk_pos.y, chunk_dimensions.y);
    }
    let x: i64 = (chunk_pos.x as i64) * (chunk_dimensions.x as i64) + (local.x as i64);
    let y: i64 = (chunk_pos.y as i64) * (chunk_dimensions.y as i64) + (local.y as i64);
    GlobalCell { x: x as i32, y: y as i32 }
}

/// The product of a 32-bit coordinate and a 32-bit size, and that product
/// plus another 32-bit size, fit 64 bits.
proof fn lemma_product_fits(coordinate: i32, size: u32)
    ensures
        -0x8000_0000 * 0xffff_ffff <= coordinate * size <= 0x7fff_ffff * 0xffff_ffff,
{
    assert(-0x8000_0000 * 0xffff_ffff <= coordinate * size <= 0x7fff_ffff * 0xffff_ffff)
        by (nonlinear_arith)
        requires
            -0x8000_0000 <= coordinate <= 0x7fff_ffff,
            0 <= size <= 0xffff_ffff,
    ;
}

/// Taking a global cell to its chunk and its place there, and back, gives
/// the same cell, for every cell and all chunk dimensions above zero.
pub proof fn lemma_global_to_chunk_round_trip(global: GlobalCell, chunk_dimensions: Dimensions)
    requires
        chunk_dimensions.x > 0,
        chunk_dimensions.y > 0,
    ensures
        has_global_cell(
            spec_global_to_chunk(global, chunk_dimensions).0,
            spec_global_to_chunk(global, chunk_dimensions).1,
            chunk_dimensions,
        ),
        spec_chunk_to_global(
            spec_global_to_chunk(global, chunk_dimensions).0,
            spec_global_to_chunk(global, chunk_dimensions).1,
            chunk_dimensions,
        ) == global,
{
    lemma_axis_split(global.x, chunk_dimensions.x);
    lemma_axis_split(global.y, chunk_dimensions.y);
}

/// The place inside the chunk that `global_to_chunk` gives lies within the
/// chunk's dimensions on both axes.
pub proof fn lemma_local_position_in_chunk(global: GlobalCell, chunk_dimensions: Dimensions)
    requires
        chunk_dimensions.x > 0,
        chunk_dimensions.y > 0,
    ensures
        0 <= spec_global_to_chunk(global, chunk_dimensions).1.x < chunk_dimensions.x,
        0 <= spec_global_to_chunk(global, chunk_dimensions).1.y < chunk_dimensions.y,
{
    lemma_axis_split(global.x, chunk_dimensions.x);
    lemma_axis_split(global.y, chunk_dimensions.y);
}

} // verus!
