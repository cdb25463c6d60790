//! The dense backing store: a `grid::Grid` of tile data.
//!
//! The grid is a collection of the `grid` crate and Verus does not read it.
//! This file gives its contents two names and states, for each method that
//! the library calls, what that method does in terms of those names. These
//! statements are taken on trust from the crate's source; everything built on
//! them is proved.

use grid::Grid;
use vstd::prelude::*;

verus! {

/// Makes `grid::Grid` known to Verus, as a type whose inside it does not
/// see.
#[verifier::external_type_specification]
#[verifier::external_body]
#[verifier::reject_recursive_types(T)]
pub struct ExGrid<T>(Grid<T>);

/// The number of rows and the number of columns of a grid, in this order.
pub uninterp spec fn grid_size(grid: Grid<u64>) -> (usize, usize);

/// The cells of a grid: each pair `(row, column)` inside the grid's size is
/// mapped to the value that the grid holds there.
pub uninterp spec fn grid_cells(grid: Grid<u64>) -> Map<(usize, usize), u64>;

/// The shape that `Grid` gives a grid asked for with `rows` and `cols`: a
/// grid without rows or without columns has neither.
pub open spec fn grid_shape(rows: usize, cols: usize) -> (usize, usize) {
    if rows == 0 || cols == 0 {
        (0usize, 0usize)
    } else {
        (rows, cols)
    }
}

/// The number of whole rows of `cols` values that `len` values make.
pub open spec fn rows_of(len: nat, cols: usize) -> usize {
    if cols == 0 {
        0usize
    } else {
        (len / (cols as nat)) as usize
    }
}

/// Whether `(row, col)` lies inside a grid of the given size.
pub open spec fn in_grid(size: (usize, usize), row: usize, col: usize) -> bool {
    row < size.0 && col < size.1
}

/// The largest number of cells that one allocation of 64-bit words can hold.
pub open spec fn max_cells() -> int {
    isize::MAX as int / 8
}

/// `Grid::new`: a grid of `rows` by `cols` cells that all hold the default
/// of `u64`, which is zero. The grid is empty when either count is zero.
/// `Grid::new` panics when the cells do not fit one allocation; the
/// precondition leaves those sizes out.
#[verifier::external_body]
pub(crate) fn grid_new(rows: usize, cols: usize) -> (grid: Grid<u64>)
    requires
        rows * cols <= max_cells(),
    ensures
        grid_size(grid) == grid_shape(rows, cols),
        (grid_cells(grid) == Map::<(usize, usize), u64>::new(
            |cell: (usize, usize)| in_grid(grid_shape(rows, cols), cell.0, cell.1),
            |cell: (usize, usize)| 0u64,
        )),
{
    Grid::new(rows, cols)
}

/// `Grid::init`: a grid of `rows` by `cols` cells that all hold `value`. The
/// grid is empty when either count is zero. `Grid::init` panics when the
/// cells do not fit one allocation; the precondition leaves those sizes out.
#[verifier::external_body]
pub(crate) fn grid_init(rows: usize, cols: usize, value: u64) -> (grid: Grid<u64>)
    requires
        rows * cols <= max_cells(),
    ensures
        grid_size(grid) == grid_shape(rows, cols),
        (grid_cells(grid) == Map::<(usize, usize), u64>::new(
            |cell: (usize, usize)| in_grid(grid_shape(rows, cols), cell.0, cell.1),
            |cell: (usize, usize)| value,
        )),
{
    Grid::init(rows, cols, value)
}

/// `Grid::from_vec`: the grid whose rows are the consecutive runs of `cols`
/// values of `values`, so that the cell in row `r` and column `c` holds
/// `values[r * cols + c]`. `Grid::from_vec` panics unless the number of
/// values is a multiple of `cols` (for `cols == 0`: unless there are none);
/// the precondition leaves those inputs out.
#[verifier::external_body]
pub(crate) fn grid_from_vec(values: Vec<u64>, cols: usize) -> (grid: Grid<u64>)
    requires
        cols == 0 ==> values@.len() == 0,
        cols > 0 ==> values@.len() % (cols as nat) == 0,
    ensures
        grid_size(grid) == grid_shape(rows_of(values@.len(), cols), cols),
        (grid_cells(grid) == Map::<(usize, usize), u64>::new(
            |cell: (usize, usize)| in_grid(grid_size(grid), cell.0, cell.1),
            |cell: (usize, usize)| values@[cell.0 * cols + cell.1],
        )),
{
    Grid::from_vec(values, cols)
}

/// `Grid::size`: the number of rows and the number of columns.
#[verifier::external_body]
pub(crate) fn grid_size_of(grid: &Grid<u64>) -> (size: (usize, usize))
    ensures
        size == grid_size(*grid),
{
    grid.size()
}

/// `Grid::get`: the cell in row `row` and column `col`, or nothing when the
/// place lies outside the grid.
#[verifier::external_body]
pub(crate) fn grid_get(grid: &Grid<u64>, row: usize, col: usize) -> (cell: Option<&u64>)
    ensures
        cell == (if in_grid(grid_size(*grid), row, col) {
            Some(&grid_cells(*grid)[(row, col)])
        } else {
            None
        }),
{
    grid.get(row, col)
}

/// `Grid::get_mut`: mutable access to the cell in row `row` and column
/// `col`, or nothing when the place lies outside the grid. The grid keeps
/// its size, and holds afterwards what it held before, but for what the
/// caller writes into the cell.
#[verifier::external_body]
pub(crate) fn grid_get_mut(grid: &mut Grid<u64>, row: usize, col: usize) -> (cell: Option<
    &mut u64,
>)
    ensures
        grid_size(*final(grid)) == grid_size(*old(grid)),
        match cell {
            Some(value) => in_grid(grid_size(*old(grid)), row, col) && *value == grid_cells(
                *old(grid),
            )[(row, col)] && grid_cells(*final(grid)) == grid_cells(*old(grid)).insert(
                (row, col),
                *final(value),
            ),
            None => !in_grid(grid_size(*old(grid)), row, col) && grid_cells(*final(grid))
                == grid_cells(*old(grid)),
        },
{
    grid.get_mut(row, col)
}

/// `Clone::clone` of a grid: a grid of the same size with the same cells.
#[verifier::external_body]
pub(crate) fn grid_clone(grid: &Grid<u64>) -> (copy: Grid<u64>)
    ensures
        grid_size(copy) == grid_size(*grid),
        grid_cells(copy) == grid_cells(*grid),
{
    grid.clone()
}

} // verus!
