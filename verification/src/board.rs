//! One generation as a mathematical object: a sequence of rows of cells,
//! the ring of cells around a position, and the generation that follows.

use crate::cell::{flipped, glyph, next_state, Cell};
use vstd::prelude::*;

verus! {

/// Whether `(row, col)` names a cell of the board.
pub open spec fn in_bounds(board: Seq<Seq<Cell>>, row: int, col: int) -> bool {
    0 <= row < board.len() && 0 <= col < board[row].len()
}

/// Whether every row of the board has `width` cells.
pub open spec fn has_width(board: Seq<Seq<Cell>>, width: int) -> bool {
    forall|r: int| 0 <= r < board.len() ==> (#[trigger] board[r]).len() == width
}

/// A grid of `rows` by `cols` dead cells, or no rows at all when either
/// dimension is zero.
pub open spec fn blank(rows: nat, cols: nat) -> Seq<Seq<Cell>> {
    if rows == 0 || cols == 0 {
        Seq::empty()
    } else {
        Seq::new(rows, |r: int| Seq::new(cols, |c: int| Cell::Dead))
    }
}

/// The eight steps from a position to the positions around it, scanned row
/// by row.
pub open spec fn ring_offsets() -> Seq<(int, int)> {
    seq![(-1, -1), (-1, 0), (-1, 1), (0, -1), (0, 1), (1, -1), (1, 0), (1, 1)]
}

/// The cell at `(row, col)` as a sequence of one, or the empty sequence when
/// the position lies outside the board.
pub open spec fn cell_if_present(board: Seq<Seq<Cell>>, row: int, col: int) -> Seq<Cell> {
    if in_bounds(board, row, col) {
        seq![board[row][col]]
    } else {
        Seq::empty()
    }
}

/// The cells found by taking the first `steps` of the eight ring offsets
/// from `(row, col)`, in that order, leaving out the positions outside the
/// board.
pub open spec fn ring_prefix(board: Seq<Seq<Cell>>, row: int, col: int, steps: nat) -> Seq<Cell>
    decreases steps,
{
    if steps == 0 {
        Seq::empty()
    } else if steps > 8 {
        ring_prefix(board, row, col, (steps - 1) as nat)
    } else {
        let step = ring_offsets()[steps - 1];
        ring_prefix(board, row, col, (steps - 1) as nat) + cell_if_present(
            board,
            row + step.0,
            col + step.1,
        )
    }
}

/// The cells around `(row, col)`: up to eight, fewer at an edge.
pub open spec fn ring_cells(board: Seq<Seq<Cell>>, row: int, col: int) -> Seq<Cell> {
    ring_prefix(board, row, col, 8)
}

/// How many of the given cells are live.
pub open spec fn live_count(cells: Seq<Cell>) -> nat
    decreases cells.len(),
{
    if cells.len() == 0 {
        0
    } else {
        live_count(cells.drop_last()) + if cells.last() == Cell::Live {
            1nat
        } else {
            0nat
        }
    }
}

/// How many of the cells around `(row, col)` are live.
pub open spec fn live_neighbours(board: Seq<Seq<Cell>>, row: int, col: int) -> nat {
    live_count(ring_cells(board, row, col))
}

/// The state of the cell at `(row, col)` in the generation after `board`.
pub open spec fn next_cell(board: Seq<Seq<Cell>>, row: int, col: int) -> Cell {
    next_state(board[row][col], live_neighbours(board, row, col) as int)
}

/// The generation after `board`: every cell decided from `board` alone.
pub open spec fn next_generation(board: Seq<Seq<Cell>>) -> Seq<Seq<Cell>> {
    Seq::new(board.len(), |r: int| Seq::new(board[r].len(), |c: int| next_cell(board, r, c)))
}

/// Whether every cell of the board is dead.
pub open spec fn all_dead(board: Seq<Seq<Cell>>) -> bool {
    forall|r: int, c: int| in_bounds(board, r, c) ==> (#[trigger] board[r][c]) == Cell::Dead
}

/// Whether the cell at `(row, col)` has another state in the next
/// generation.
pub open spec fn must_flip(board: Seq<Seq<Cell>>, row: int, col: int) -> bool {
    in_bounds(board, row, col) && next_cell(board, row, col) != board[row][col]
}

/// The board with the cell at `(row, col)` switched to its other state.
pub open spec fn flip_at(board: Seq<Seq<Cell>>, row: int, col: int) -> Seq<Seq<Cell>> {
    board.update(row, board[row].update(col, flipped(board[row][col])))
}

/// The board after switching the cells at the listed positions, one after
/// the other from the front of the list.
pub open spec fn apply_flips(board: Seq<Seq<Cell>>, flips: Seq<(int, int)>) -> Seq<Seq<Cell>>
    decreases flips.len(),
{
    if flips.len() == 0 {
        board
    } else {
        flip_at(apply_flips(board, flips.drop_last()), flips.last().0, flips.last().1)
    }
}

/// Whether `flips` lists, each once, exactly the positions of `board` whose
/// cell must change: what the read-only pass over a generation hands to the
/// pass that writes.
pub open spec fn decides(board: Seq<Seq<Cell>>, flips: Seq<(int, int)>) -> bool {
    &&& flips.no_duplicates()
    &&& forall|i: int| 0 <= i < flips.len() ==> must_flip(board, (#[trigger] flips[i]).0, flips[i].1)
    &&& forall|r: int, c: int| #[trigger] must_flip(board, r, c) ==> flips.contains((r, c))
}

/// Whether position `a` comes before position `b` when the board is read
/// row by row.
pub open spec fn reads_before(a: (int, int), b: (int, int)) -> bool {
    a.0 < b.0 || (a.0 == b.0 && a.1 < b.1)
}

/// Whether the listed positions stand in the order in which the board is
/// read row by row.
pub open spec fn in_reading_order(flips: Seq<(int, int)>) -> bool {
    forall|i: int, j: int| 0 <= i < j < flips.len() ==> reads_before(flips[i], flips[j])
}

/// Whether `flips` lists, in reading order, exactly the positions before
/// `end` whose cell must change: how far the read-only pass has come when
/// it stands at `end`.
pub open spec fn decides_before(
    board: Seq<Seq<Cell>>,
    flips: Seq<(int, int)>,
    end: (int, int),
) -> bool {
    &&& in_reading_order(flips)
    &&& forall|i: int|
        0 <= i < flips.len() ==> must_flip(board, (#[trigger] flips[i]).0, flips[i].1)
            && reads_before(flips[i], end)
    &&& forall|r: int, c: int|
        #[trigger] must_flip(board, r, c) && reads_before((r, c), end) ==> flips.contains((r, c))
}

/// Whether `order` visits every position of the board exactly once.
pub open spec fn enumerates(board: Seq<Seq<Cell>>, order: Seq<(int, int)>) -> bool {
    &&& order.no_duplicates()
    &&& forall|i: int| 0 <= i < order.len() ==> in_bounds(board, (#[trigger] order[i]).0, order[i].1)
    &&& forall|r: int, c: int| #[trigger] in_bounds(board, r, c) ==> order.contains((r, c))
}

/// The positions, among those visited in `order`, whose cell must change,
/// in the order of the visit.
pub open spec fn decided(board: Seq<Seq<Cell>>, order: Seq<(int, int)>) -> Seq<(int, int)> {
    order.filter(|p: (int, int)| must_flip(board, p.0, p.1))
}

/// The cells of a row as text: each cell as a bar and its character.
pub open spec fn row_text(cells: Seq<Cell>) -> Seq<char>
    decreases cells.len(),
{
    if cells.len() == 0 {
        Seq::empty()
    } else {
        row_text(cells.drop_last()) + seq!['|', glyph(cells.last())]
    }
}

/// The rows of a board as text, from the top: each row as its cells, a
/// closing bar and a line break.
pub open spec fn rows_text(board: Seq<Seq<Cell>>) -> Seq<char>
    decreases board.len(),
{
    if board.len() == 0 {
        Seq::empty()
    } else {
        rows_text(board.drop_last()) + row_text(board.last()) + seq!['|', '\n']
    }
}

/// The board as text: its rows, and a line break after the last.
pub open spec fn picture(board: Seq<Seq<Cell>>) -> Seq<char> {
    rows_text(board) + seq!['\n']
}

} // verus!
