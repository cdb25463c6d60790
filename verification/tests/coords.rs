use sparse_tilemap::map::coords::{
    chunk_to_global, global_to_chunk, ChunkPos, ChunkTilePos, Dimensions, EntityHandle, GlobalCell,
};

#[test]
fn positive_cell_splits_into_chunk_and_local() {
    let (chunk, local) = global_to_chunk(GlobalCell::new(7, 13), Dimensions::new(4, 5));
    assert_eq!(chunk, ChunkPos::new(1, 2));
    assert_eq!(local, ChunkTilePos::new(3, 3));
}

#[test]
fn negative_cell_rounds_down() {
    let (chunk, local) = global_to_chunk(GlobalCell::new(-1, -1), Dimensions::new(4, 4));
    assert_eq!(chunk, ChunkPos::new(-1, -1));
    assert_eq!(local, ChunkTilePos::new(3, 3));

    let (chunk, local) = global_to_chunk(GlobalCell::new(-4, -5), Dimensions::new(4, 4));
    assert_eq!(chunk, ChunkPos::new(-1, -2));
    assert_eq!(local, ChunkTilePos::new(0, 3));

    let (chunk, local) = global_to_chunk(GlobalCell::new(7, -5), Dimensions::new(4, 3));
    assert_eq!(chunk, ChunkPos::new(1, -2));
    assert_eq!(local, ChunkTilePos::new(3, 1));
}

#[test]
fn origin_is_first_tile_of_first_chunk() {
    let (chunk, local) = global_to_chunk(GlobalCell::new(0, 0), Dimensions::new(16, 16));
    assert_eq!(chunk, ChunkPos::new(0, 0));
    assert_eq!(local, ChunkTilePos::new(0, 0));
}

#[test]
fn chunk_to_global_multiplies_and_adds() {
    let cell = chunk_to_global(
        ChunkPos::new(2, -3),
        ChunkTilePos::new(1, 2),
        Dimensions::new(5, 4),
    );
    assert_eq!(cell, GlobalCell::new(11, -10));
}

#[test]
fn round_trip_over_a_range_of_cells_and_sizes() {
    for width in 1u32..7 {
        for height in 1u32..7 {
            let dimensions = Dimensions::new(width, height);
            for x in -25i32..25 {
                for y in -25i32..25 {
                    let cell = GlobalCell::new(x, y);
                    let (chunk, local) = global_to_chunk(cell, dimensions);
                    assert!(local.x < width);
                    assert!(local.y < height);
                    assert_eq!(chunk_to_global(chunk, local, dimensions), cell);
                }
            }
        }
    }
}

#[test]
fn round_trip_at_the_ends_of_the_range() {
    let cells = [
        GlobalCell::new(i32::MIN, i32::MAX),
        GlobalCell::new(i32::MAX, i32::MIN),
        GlobalCell::new(i32::MIN + 1, -1),
        GlobalCell::new(0, i32::MAX - 1),
    ];
    let sizes = [
        Dimensions::new(1, 1),
        Dimensions::new(u32::MAX, u32::MAX),
        Dimensions::new(2, 3),
        Dimensions::new(0x8000_0000, 0x7fff_ffff),
    ];
    for cell in cells {
        for dimensions in sizes {
            let (chunk, local) = global_to_chunk(cell, dimensions);
            assert!(local.x < dimensions.x);
            assert!(local.y < dimensions.y);
            assert_eq!(chunk_to_global(chunk, local, dimensions), cell);
        }
    }
}

#[test]
fn smallest_cell_in_largest_chunks() {
    let (chunk, local) = global_to_chunk(
        GlobalCell::new(i32::MIN, -1),
        Dimensions::new(u32::MAX, u32::MAX),
    );
    assert_eq!(chunk, ChunkPos::new(-1, -1));
    assert_eq!(local, ChunkTilePos::new(0x7fff_ffff, u32::MAX - 1));
}

#[test]
fn smallest_cell_in_chunks_of_one_tile() {
    let (chunk, local) = global_to_chunk(GlobalCell::new(i32::MIN, i32::MAX), Dimensions::new(1, 1));
    assert_eq!(chunk, ChunkPos::new(i32::MIN, i32::MAX));
    assert_eq!(local, ChunkTilePos::new(0, 0));
}

#[test]
fn position_accessors_return_the_coordinates() {
    let pos = ChunkTilePos::new(3, 9);
    assert_eq!(pos.x(), 3);
    assert_eq!(pos.y(), 9);
}

#[test]
fn entity_handle_keeps_its_bits() {
    let handle = EntityHandle::from_bits(0xdead_beef_0000_0001);
    assert_eq!(handle.to_bits(), 0xdead_beef_0000_0001);
    assert_eq!(handle, EntityHandle::from_bits(0xdead_beef_0000_0001));
    assert_ne!(handle, EntityHandle::from_bits(1));
}
