//! The two-dimensional container that holds the cells: `grid::Grid`, with
//! what this library relies on when it calls it.

use crate::board::blank;
use crate::cell::Cell;
use grid::Grid;
use vstd::prelude::*;

verus! {

/// `grid::Grid`, taken as it is: nothing of its fields is known here.
#[verifier::external_type_specification]
#[verifier::external_body]
#[verifier::reject_recursive_types(T)]
pub struct ExGrid<T>(Grid<T>);

/// The cells a grid holds: one sequence for each row, from the top, and in
/// it one cell for each column, from the left.
pub uninterp spec fn grid_cells(g: Grid<Cell>) -> Seq<Seq<Cell>>;

/// The number of columns a grid has, which is the number of cells in each
/// of its rows.
pub uninterp spec fn grid_width(g: Grid<Cell>) -> nat;

/// `Grid::new`: a grid of the given size in which every slot holds the
/// default cell, which is the dead one. With either dimension zero the grid
/// has neither rows nor columns. The call panics when the number of slots
/// does not fit in a `usize` or is more than one allocation can hold, which
/// the precondition excludes.
#[verifier::external_body]
pub(crate) fn grid_new(rows: usize, cols: usize) -> (g: Grid<Cell>)
    requires
        rows * cols <= isize::MAX,
    ensures
        grid_cells(g) == blank(rows as nat, cols as nat),
        grid_width(g) == (if rows == 0 || cols == 0 { 0 } else { cols as nat }),
{
    Grid::new(rows, cols)
}

/// `Grid::rows`: the number of rows.
#[verifier::external_body]
pub(crate) fn grid_rows(g: &Grid<Cell>) -> (n: usize)
    ensures
        n == grid_cells(*g).len(),
{
    g.rows()
}

/// `Grid::cols`: the number of columns, which is the length of every row.
#[verifier::external_body]
pub(crate) fn grid_cols(g: &Grid<Cell>) -> (n: usize)
    ensures
        n == grid_width(*g),
        forall|r: int| 0 <= r < grid_cells(*g).len() ==> (#[trigger] grid_cells(*g)[r]).len() == n,
{
    g.cols()
}

/// `Grid::get`: the cell at a position inside the grid, and nothing for a
/// position outside it.
#[verifier::external_body]
pub(crate) fn grid_get(g: &Grid<Cell>, row: usize, col: usize) -> (cell: Option<&Cell>)
    ensures
        cell == (if row < grid_cells(*g).len() && col < grid_cells(*g)[row as int].len() {
            Some(&grid_cells(*g)[row as int][col as int])
        } else {
            None
        }),
{
    g.get(row, col)
}

/// `Grid::get_mut`: the slot at a position inside the grid, and nothing for
/// a position outside it. What is written to the slot becomes the cell at
/// that position; every other cell and the shape of the grid stay.
#[verifier::external_body]
pub(crate) fn grid_get_mut(g: &mut Grid<Cell>, row: usize, col: usize) -> (slot: Option<&mut Cell>)
    ensures
        row < grid_cells(*old(g)).len() && col < grid_cells(*old(g))[row as int].len() ==> ({
            &&& slot is Some
            &&& *slot->0 == grid_cells(*old(g))[row as int][col as int]
            &&& grid_cells(*final(g)) == grid_cells(*old(g)).update(
                row as int,
                grid_cells(*old(g))[row as int].update(col as int, *final(slot->0)),
            )
            &&& grid_width(*final(g)) == grid_width(*old(g))
        }),
        !(row < grid_cells(*old(g)).len() && col < grid_cells(*old(g))[row as int].len()) ==> ({
            &&& slot is None
            &&& *final(g) == *old(g)
        }),
{
    g.get_mut(row, col)
}

/// `Grid::iter_row`: the cells of one row, from the left. The call panics
/// for a row outside the grid, which the precondition excludes.
#[verifier::external_body]
pub(crate) fn grid_row(g: &Grid<Cell>, row: usize) -> (cells: Vec<&Cell>)
    requires
        row < grid_cells(*g).len(),
    ensures
        cells@.len() == grid_cells(*g)[row as int].len(),
        forall|i: int| 0 <= i < cells@.len() ==> *cells@[i] == grid_cells(*g)[row as int][i],
{
    g.iter_row(row).collect()
}

} // verus!
