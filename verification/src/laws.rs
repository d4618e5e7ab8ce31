//! What holds of every generation: how the ring of a cell looks, what the
//! rule does to each cell, and why the order in which the positions are
//! visited does not matter.

use crate::board::{
    all_dead, apply_flips, decided, decides, decides_before, enumerates, has_width, in_bounds,
    in_reading_order, live_count, live_neighbours, must_flip, next_generation, reads_before,
    ring_cells, ring_prefix,
};
use crate::cell::{flipped, Cell};
use vstd::prelude::*;

verus! {

/// Switching the cells at distinct positions of the board keeps the shape of
/// the board, switches the cells at the listed positions and leaves every
/// other cell as it was.
pub proof fn lemma_flips_switch_listed_cells(board: Seq<Seq<Cell>>, flips: Seq<(int, int)>)
    requires
        flips.no_duplicates(),
        forall|i: int| 0 <= i < flips.len() ==> in_bounds(board, (#[trigger] flips[i]).0, flips[i].1),
    ensures
        apply_flips(board, flips).len() == board.len(),
        forall|r: int|
            0 <= r < board.len() ==> (#[trigger] apply_flips(board, flips)[r]).len()
                == board[r].len(),
        forall|r: int, c: int|
            in_bounds(board, r, c) ==> (#[trigger] apply_flips(board, flips)[r][c]) == (if flips.contains(
                (r, c),
            ) {
                flipped(board[r][c])
            } else {
                board[r][c]
            }),
    decreases flips.len(),
{
    if flips.len() > 0 {
        let init = flips.drop_last();
        let last = flips.last();
        let after = apply_flips(board, flips);
        lemma_flips_switch_listed_cells(board, init);
        // The last position is not among those before it.
        assert(!init.contains(last));
        assert forall|r: int, c: int| in_bounds(board, r, c) implies (#[trigger] after[r][c]) == (
        if flips.contains((r, c)) {
            flipped(board[r][c])
        } else {
            board[r][c]
        }) by {
            if (r, c) != last && flips.contains((r, c)) {
                let i = choose|i: int| 0 <= i < flips.len() && flips[i] == (r, c);
                assert(init[i] == (r, c));
            }
        }
    }
}

/// Committing the decided flips gives the next generation: the pass that
/// writes needs nothing but the list that the read-only pass made, and the
/// order of that list does not matter.
pub proof fn lemma_decided_flips_give_next_generation(
    board: Seq<Seq<Cell>>,
    flips: Seq<(int, int)>,
)
    requires
        decides(board, flips),
    ensures
        apply_flips(board, flips) == next_generation(board),
{
    lemma_flips_switch_listed_cells(board, flips);
    let after = apply_flips(board, flips);
    let next = next_generation(board);
    assert forall|r: int| 0 <= r < board.len() implies #[trigger] after[r] == next[r] by {
        assert forall|c: int| 0 <= c < board[r].len() implies #[trigger] after[r][c] == next[r][c] by {
            // A listed position must flip, and one that must flip is listed.
            assert(flips.contains((r, c)) <==> must_flip(board, r, c));
        }
    }
}

/// Filtering a sequence without duplicates leaves a sequence without
/// duplicates, which holds exactly the elements that pass the filter.
pub proof fn lemma_filter_distinct<A>(s: Seq<A>, pred: spec_fn(A) -> bool)
    requires
        s.no_duplicates(),
    ensures
        s.filter(pred).no_duplicates(),
        forall|x: A| #[trigger] s.filter(pred).contains(x) <==> s.contains(x) && pred(x),
    decreases s.len(),
{
    reveal(Seq::filter);
    if s.len() > 0 {
        let init = s.drop_last();
        let last = s.last();
        let kept = init.filter(pred);
        let out = s.filter(pred);
        lemma_filter_distinct(init, pred);
        assert(!init.contains(last));
        assert forall|x: A| init.contains(x) implies s.contains(x) by {
            let i = choose|i: int| 0 <= i < init.len() && init[i] == x;
            assert(s[i] == x);
        }
        assert forall|x: A| s.contains(x) && x != last implies init.contains(x) by {
            let i = choose|i: int| 0 <= i < s.len() && s[i] == x;
            assert(init[i] == x);
        }
        if pred(last) {
            assert forall|i: int, j: int| 0 <= i < out.len() && 0 <= j < out.len() && i != j implies out[i]
                != out[j] by {
                if i < kept.len() {
                    assert(kept.contains(kept[i]));
                }
                if j < kept.len() {
                    assert(kept.contains(kept[j]));
                }
            }
            assert forall|x: A| #[trigger] out.contains(x) <==> s.contains(x) && pred(x) by {
                if kept.contains(x) {
                    let i = choose|i: int| 0 <= i < kept.len() && kept[i] == x;
                    assert(out[i] == x);
                }
                if out.contains(x) {
                    let i = choose|i: int| 0 <= i < out.len() && out[i] == x;
                    assert(i < kept.len() ==> kept[i] == x);
                }
            }
        }
    }
}

/// Order independence: visit every position of the board once, in any
/// order, decide for each from the board as it stands whether its cell must
/// change, and only then switch the cells so decided. The result is the
/// next generation, whatever order the visit took.
pub proof fn lemma_order_independent(
    board: Seq<Seq<Cell>>,
    first: Seq<(int, int)>,
    second: Seq<(int, int)>,
)
    requires
        enumerates(board, first),
        enumerates(board, second),
    ensures
        apply_flips(board, decided(board, first)) == next_generation(board),
        apply_flips(board, decided(board, second)) == apply_flips(board, decided(board, first)),
{
    lemma_visit_decides(board, first);
    lemma_visit_decides(board, second);
    lemma_decided_flips_give_next_generation(board, decided(board, first));
    lemma_decided_flips_give_next_generation(board, decided(board, second));
}

/// A visit of every position, each once, decides exactly the positions whose
/// cell must change, each once.
pub proof fn lemma_visit_decides(board: Seq<Seq<Cell>>, order: Seq<(int, int)>)
    requires
        enumerates(board, order),
    ensures
        decides(board, decided(board, order)),
{
    let pred = |p: (int, int)| must_flip(board, p.0, p.1);
    let flips = order.filter(pred);
    lemma_filter_distinct(order, pred);
    assert forall|i: int| 0 <= i < flips.len() implies must_flip(
        board,
        (#[trigger] flips[i]).0,
        flips[i].1,
    ) by {
        assert(flips.contains(flips[i]));
    }
    assert forall|r: int, c: int| must_flip(board, r, c) implies flips.contains((r, c)) by {
        assert(order.contains((r, c)) && pred((r, c)));
    }
}

/// Whether `row` is the first or the last row of the board.
pub open spec fn in_outer_row(board: Seq<Seq<Cell>>, row: int) -> bool {
    row == 0 || row == board.len() - 1
}

/// Whether `col` is the first or the last column of a board of the given
/// width.
pub open spec fn in_outer_col(width: int, col: int) -> bool {
    col == 0 || col == width - 1
}

/// A cell that touches no edge has all eight positions around it on the
/// board, and its ring holds the cells at these eight, read row by row.
pub proof fn lemma_ring_of_inner_cell(board: Seq<Seq<Cell>>, width: int, row: int, col: int)
    requires
        has_width(board, width),
        0 < row < board.len() - 1,
        0 < col < width - 1,
    ensures
        ring_cells(board, row, col) == seq![
            board[row - 1][col - 1],
            board[row - 1][col],
            board[row - 1][col + 1],
            board[row][col - 1],
            board[row][col + 1],
            board[row + 1][col - 1],
            board[row + 1][col],
            board[row + 1][col + 1],
        ],
        ring_cells(board, row, col).len() == 8,
{
    reveal_with_fuel(ring_prefix, 9);
    assert(ring_cells(board, row, col) =~= seq![
        board[row - 1][col - 1],
        board[row - 1][col],
        board[row - 1][col + 1],
        board[row][col - 1],
        board[row][col + 1],
        board[row + 1][col - 1],
        board[row + 1][col],
        board[row + 1][col + 1],
    ]);
}

/// On a board of at least two rows and two columns the ring of a cell holds
/// three cells at a corner, five at an edge away from the corners, and
/// eight anywhere else.
pub proof fn lemma_ring_size(board: Seq<Seq<Cell>>, width: int, row: int, col: int)
    requires
        has_width(board, width),
        board.len() >= 2,
        width >= 2,
        in_bounds(board, row, col),
    ensures
        ring_cells(board, row, col).len() == (if in_outer_row(board, row) && in_outer_col(
            width,
            col,
        ) {
            3nat
        } else if in_outer_row(board, row) || in_outer_col(width, col) {
            5nat
        } else {
            8nat
        }),
{
    reveal_with_fuel(ring_prefix, 9);
}

/// The ring of a cell never holds more than eight cells, and the number of
/// live cells among them never exceeds their number.
pub proof fn lemma_ring_at_most_eight(board: Seq<Seq<Cell>>, row: int, col: int)
    ensures
        ring_cells(board, row, col).len() <= 8,
        live_neighbours(board, row, col) <= ring_cells(board, row, col).len(),
{
    reveal_with_fuel(ring_prefix, 9);
    lemma_live_count_bounded(ring_cells(board, row, col));
}

/// No more cells are live than there are cells.
pub proof fn lemma_live_count_bounded(cells: Seq<Cell>)
    ensures
        live_count(cells) <= cells.len(),
    decreases cells.len(),
{
    if cells.len() > 0 {
        lemma_live_count_bounded(cells.drop_last());
    }
}

/// Among dead cells none is live.
pub proof fn lemma_no_live_among_dead(cells: Seq<Cell>)
    requires
        forall|i: int| 0 <= i < cells.len() ==> cells[i] == Cell::Dead,
    ensures
        live_count(cells) == 0,
    decreases cells.len(),
{
    if cells.len() > 0 {
        lemma_no_live_among_dead(cells.drop_last());
    }
}

/// Around any position of a board of dead cells, every cell is dead.
pub proof fn lemma_ring_of_dead_board(board: Seq<Seq<Cell>>, row: int, col: int, steps: nat)
    requires
        all_dead(board),
    ensures
        forall|i: int|
            0 <= i < ring_prefix(board, row, col, steps).len() ==> (#[trigger] ring_prefix(
                board,
                row,
                col,
                steps,
            )[i]) == Cell::Dead,
    decreases steps,
{
    if steps > 0 {
        lemma_ring_of_dead_board(board, row, col, (steps - 1) as nat);
    }
}

/// No spontaneous life: the generation after a board of dead cells is that
/// same board of dead cells.
pub proof fn lemma_dead_board_stays_dead(board: Seq<Seq<Cell>>)
    requires
        all_dead(board),
    ensures
        next_generation(board) == board,
        all_dead(next_generation(board)),
{
    let next = next_generation(board);
    assert forall|r: int| 0 <= r < board.len() implies #[trigger] next[r] == board[r] by {
        assert forall|c: int| 0 <= c < board[r].len() implies #[trigger] next[r][c] == board[r][c] by {
            lemma_ring_of_dead_board(board, r, c, 8);
            lemma_no_live_among_dead(ring_cells(board, r, c));
        }
    }
}

/// The rule, cell by cell: in the next generation a live cell with two or
/// three live cells around it is live and any other live cell is dead; a
/// dead cell with exactly three live cells around it is live and any other
/// dead cell is dead. The generation keeps the shape of the board.
pub proof fn lemma_next_generation_follows_rule(board: Seq<Seq<Cell>>, row: int, col: int)
    requires
        in_bounds(board, row, col),
    ensures
        in_bounds(next_generation(board), row, col),
        next_generation(board).len() == board.len(),
        next_generation(board)[row].len() == board[row].len(),
        board[row][col] == Cell::Live ==> next_generation(board)[row][col] == (if live_neighbours(
            board,
            row,
            col,
        ) == 2 || live_neighbours(board, row, col) == 3 {
            Cell::Live
        } else {
            Cell::Dead
        }),
        board[row][col] == Cell::Dead ==> next_generation(board)[row][col] == (if live_neighbours(
            board,
            row,
            col,
        ) == 3 {
            Cell::Live
        } else {
            Cell::Dead
        }),
{
}

/// Positions listed in reading order are distinct.
pub proof fn lemma_reading_order_is_distinct(flips: Seq<(int, int)>)
    requires
        in_reading_order(flips),
    ensures
        flips.no_duplicates(),
{
    assert forall|i: int, j: int| 0 <= i < flips.len() && 0 <= j < flips.len() && i != j implies flips[i]
        != flips[j] by {
        if i < j {
            assert(reads_before(flips[i], flips[j]));
        } else {
            assert(reads_before(flips[j], flips[i]));
        }
    }
}

/// Once the read-only pass has gone past the last row, its list decides the
/// whole board.
pub proof fn lemma_pass_complete(board: Seq<Seq<Cell>>, flips: Seq<(int, int)>)
    requires
        decides_before(board, flips, (board.len() as int, 0)),
    ensures
        decides(board, flips),
{
    lemma_reading_order_is_distinct(flips);
}

} // verus!
