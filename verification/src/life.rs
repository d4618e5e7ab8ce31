//! The engine: a grid of cells and the step from one generation to the
//! next.

use crate::board::{
    all_dead, apply_flips, blank, decides, decides_before, has_width, in_bounds,
    in_reading_order, live_count, live_neighbours, must_flip, next_generation, picture,
    reads_before, ring_cells, ring_prefix, row_text, rows_text,
};
use crate::cell::Cell;
use crate::laws::{
    lemma_dead_board_stays_dead, lemma_decided_flips_give_next_generation,
    lemma_flips_switch_listed_cells, lemma_pass_complete, lemma_reading_order_is_distinct,
    lemma_ring_at_most_eight,
};
use crate::storage::{
    grid_cells, grid_cols, grid_get, grid_get_mut, grid_new, grid_row, grid_rows, grid_width,
};
use crate::text::push_char;
use grid::Grid;
use vstd::prelude::*;
use vstd::string::StringExecFns;

verus! {

/// The steps from a position to the eight positions around it, scanned row
/// by row.
pub const OFFSET: [(isize, isize); 8] = [
    (-1, -1),
    (-1, 0),
    (-1, 1),
    (0, -1),
    (0, 1),
    (1, -1),
    (1, 0),
    (1, 1),
];

/// The cells that a sequence of borrowed cells refers to.
pub open spec fn states(cells: Seq<&Cell>) -> Seq<Cell> {
    cells.map_values(|cell: &Cell| *cell)
}

/// A list of positions as pairs of mathematical integers.
pub open spec fn positions(coords: Seq<(usize, usize)>) -> Seq<(int, int)> {
    coords.map_values(|p: (usize, usize)| (p.0 as int, p.1 as int))
}

/// A grid of cells that is advanced one generation at a time.
pub struct LifeGrid {
    grid: Grid<Cell>,
}

impl View for LifeGrid {
    type V = Seq<Seq<Cell>>;

    /// The cells, row by row from the top.
    open spec fn view(&self) -> Seq<Seq<Cell>> {
        grid_cells(self.spec_grid())
    }
}

impl LifeGrid {
    /// The container that holds the cells.
    pub closed spec fn spec_grid(&self) -> Grid<Cell> {
        self.grid
    }

    /// The number of columns.
    pub open spec fn width(&self) -> nat {
        grid_width(self.spec_grid())
    }

    /// A grid of `row` rows and `col` columns in which every cell is dead.
    /// With either dimension zero the grid has no cells, rows or columns.
    pub fn new(row: usize, col: usize) -> (life: Self)
        requires
            row * col <= isize::MAX,
        ensures
            life@ == blank(row as nat, col as nat),
            life.width() == (if row == 0 || col == 0 { 0 } else { col as nat }),
    {
        Self { grid: grid_new(row, col) }
    }

    /// The container that holds the cells.
    pub fn grid(&self) -> (g: &Grid<Cell>)
        ensures
            *g == self.spec_grid(),
    {
        &self.grid
    }

    /// The container that holds the cells, for writing: what the caller
    /// leaves in it is what this grid then holds.
    pub fn grid_mut(&mut self) -> (g: &mut Grid<Cell>)
        ensures
            *g == old(self).spec_grid(),
            final(self).spec_grid() == *final(g),
    {
        &mut self.grid
    }

    /// The number of rows.
    pub fn rows(&self) -> (n: usize)
        ensures
            n == self@.len(),
    {
        grid_rows(self.grid())
    }

    /// The number of columns, which every row has.
    pub fn cols(&self) -> (n: usize)
        ensures
            n == self.width(),
            has_width(self@, n as int),
    {
        grid_cols(self.grid())
    }

    /// Puts `pred` at `(row, col)`, a position of the grid. Nothing else
    /// changes.
    pub fn muts(&mut self, row: usize, col: usize, pred: Cell)
        requires
            in_bounds(old(self)@, row as int, col as int),
        ensures
            final(self)@ == old(self)@.update(
                row as int,
                old(self)@[row as int].update(col as int, pred),
            ),
            final(self).width() == old(self).width(),
    {
        *grid_get_mut(self.grid_mut(), row, col).unwrap() = pred;
    }

    /// The cells around `(row, col)`: the up to eight cells one step away,
    /// scanned row by row, without the positions that lie outside the grid.
    pub fn ring(&self, row: usize, col: usize) -> (around: Vec<&Cell>)
        ensures
            states(around@) == ring_cells(self@, row as int, col as int),
            around@.len() <= 8,
    {
        // Both dimensions fit in a `usize`, so a step that leaves the range
        // of `usize` leaves the grid as well.
        let rows: usize = self.rows();
        let cols: usize = self.cols();
        let mut around: Vec<&Cell> = Vec::new();
        let mut k: usize = 0;
        while k < 8
            invariant
                k <= 8,
                rows == self@.len(),
                has_width(self@, cols as int),
                states(around@) == ring_prefix(self@, row as int, col as int, k as nat),
            decreases 8 - k,
        {
            let (off_r, off_c) = OFFSET[k];
            if let Some(r_get) = row.checked_add_signed(off_r) {
                if let Some(c_get) = col.checked_add_signed(off_c) {
                    if let Some(cell) = grid_get(self.grid(), r_get, c_get) {
                        around.push(cell);
                    }
                }
            }
            k += 1;
        }
        proof {
            lemma_ring_at_most_eight(self@, row as int, col as int);
        }
        around
    }

    /// The number of live cells around `(row, col)`.
    pub fn live_neighs(&self, row: usize, col: usize) -> (n: usize)
        ensures
            n == live_neighbours(self@, row as int, col as int),
            n <= 8,
    {
        let around = self.ring(row, col);
        let mut n: usize = 0;
        let mut i: usize = 0;
        while i < around.len()
            invariant
                i <= around.len(),
                n <= i,
                n == live_count(states(around@).take(i as int)),
            decreases around.len() - i,
        {
            proof {
                assert(states(around@).take(i + 1).drop_last() =~= states(around@).take(i as int));
            }
            if matches!(*around[i], Cell::Live) {
                n += 1;
            }
            i += 1;
        }
        proof {
            assert(states(around@).take(i as int) =~= states(around@));
        }
        n
    }

    /// The read-only pass: the positions whose cell has another state in
    /// the next generation, in reading order. Every decision is taken from
    /// the grid as it stands; nothing is written.
    pub fn construct_changes(&self) -> (changes: Vec<(usize, usize)>)
        ensures
            decides(self@, positions(changes@)),
            in_reading_order(positions(changes@)),
    {
        let rows: usize = self.rows();
        let cols: usize = self.cols();
        let mut changes: Vec<(usize, usize)> = Vec::new();
        let mut row: usize = 0;
        while row < rows
            invariant
                row <= rows,
                rows == self@.len(),
                has_width(self@, cols as int),
                decides_before(self@, positions(changes@), (row as int, 0)),
            decreases rows - row,
        {
            let mut col: usize = 0;
            while col < cols
                invariant
                    row < rows,
                    col <= cols,
                    rows == self@.len(),
                    has_width(self@, cols as int),
                    decides_before(self@, positions(changes@), (row as int, col as int)),
                decreases cols - col,
            {
                let ghost listed = positions(changes@);
                let cell = grid_get(self.grid(), row, col).unwrap();
                if cell.has_to_change(self.live_neighs(row, col)) {
                    changes.push((row, col));
                    proof {
                        let here = (row as int, col as int);
                        let grown = positions(changes@);
                        assert(grown =~= listed.push(here));
                        assert(grown[listed.len() as int] == here);
                        assert forall|r: int, c: int| #[trigger]
                            must_flip(self@, r, c) && reads_before(
                                (r, c),
                                (row as int, col + 1),
                            ) implies grown.contains((r, c)) by {
                            if (r, c) != here {
                                let i = choose|i: int| 0 <= i < listed.len() && listed[i] == (r, c);
                                assert(grown[i] == (r, c));
                            }
                        }
                    }
                }
                col += 1;
            }
            row += 1;
        }
        proof {
            lemma_pass_complete(self@, positions(changes@));
        }
        changes
    }

    /// Advances the grid by one generation. Every cell is decided from the
    /// generation before the call: the positions that change are collected
    /// first and switched only afterwards, so no decision sees a cell that
    /// this call has already written.
    pub fn update(&mut self)
        ensures
            final(self)@ == next_generation(old(self)@),
            final(self).width() == old(self).width(),
            final(self)@.len() == old(self)@.len(),
            forall|r: int|
                0 <= r < old(self)@.len() ==> (#[trigger] final(self)@[r]).len() == old(self)@[r].len(),
            forall|r: int, c: int|
                in_bounds(old(self)@, r, c) && old(self)@[r][c] == Cell::Live ==> (
                #[trigger] final(self)@[r][c]) == (if live_neighbours(old(self)@, r, c) == 2
                    || live_neighbours(old(self)@, r, c) == 3 {
                    Cell::Live
                } else {
                    Cell::Dead
                }),
            forall|r: int, c: int|
                in_bounds(old(self)@, r, c) && old(self)@[r][c] == Cell::Dead ==> (
                #[trigger] final(self)@[r][c]) == (if live_neighbours(old(self)@, r, c) == 3 {
                    Cell::Live
                } else {
                    Cell::Dead
                }),
            all_dead(old(self)@) ==> all_dead(final(self)@),
    {
        let changes = self.construct_changes();
        let ghost before = self@;
        let ghost width = self.width();
        let ghost flips = positions(changes@);
        proof {
            lemma_reading_order_is_distinct(flips);
        }
        let mut i: usize = 0;
        while i < changes.len()
            invariant
                i <= changes.len(),
                flips == positions(changes@),
                decides(before, flips),
                self@ == apply_flips(before, flips.take(i as int)),
                self.width() == width,
            decreases changes.len() - i,
        {
            let (row, col) = changes[i];
            proof {
                assert(must_flip(before, flips[i as int].0, flips[i as int].1));
                lemma_flips_switch_listed_cells(before, flips.take(i as int));
                assert(flips.take(i + 1).drop_last() =~= flips.take(i as int));
            }
            let next = grid_get(self.grid(), row, col).unwrap().switched();
            self.muts(row, col, next);
            i += 1;
        }
        proof {
            assert(flips.take(i as int) =~= flips);
            lemma_decided_flips_give_next_generation(before, flips);
            if all_dead(before) {
                lemma_dead_board_stays_dead(before);
            }
        }
    }

    /// The grid as text, top row first: every cell as a bar and its
    /// character, a closing bar at the end of every row, one line for each
    /// row, and an empty line after the last.
    pub fn to_string(&self) -> (text: String)
        ensures
            text@ == picture(self@),
    {
        let mut output = String::new();
        let rows: usize = self.rows();
        let mut row: usize = 0;
        while row < rows
            invariant
                row <= rows,
                rows == self@.len(),
                output@ == rows_text(self@.take(row as int)),
            decreases rows - row,
        {
            let cells = grid_row(self.grid(), row);
            let ghost done = output@;
            let ghost line = self@[row as int];
            let mut i: usize = 0;
            while i < cells.len()
                invariant
                    i <= cells.len(),
                    cells@.len() == line.len(),
                    forall|j: int| 0 <= j < cells@.len() ==> *cells@[j] == line[j],
                    output@ == done + row_text(line.take(i as int)),
                decreases cells.len() - i,
            {
                proof {
                    assert(line.take(i + 1).drop_last() =~= line.take(i as int));
                }
                push_char(&mut output, '|');
                push_char(&mut output, cells[i].as_char());
                i += 1;
            }
            output.append("|\n");
            proof {
                reveal_strlit("|\n");
                assert(line.take(i as int) =~= line);
                assert(self@.take(row + 1).drop_last() =~= self@.take(row as int));
            }
            row += 1;
        }
        proof {
            assert(self@.take(row as int) =~= self@);
        }
        push_char(&mut output, '\n');
        output
    }

    /// Seeds one cell: makes the cell at `(row, col)` live and says so, or,
    /// for a position outside the grid, changes nothing and says that the
    /// seeding has come to its end.
    pub fn seed(&mut self, row: usize, col: usize) -> (seeded: bool)
        ensures
            seeded == in_bounds(old(self)@, row as int, col as int),
            seeded ==> final(self)@ == old(self)@.update(
                row as int,
                old(self)@[row as int].update(col as int, Cell::Live),
            ),
            seeded ==> final(self).width() == old(self).width(),
            !seeded ==> final(self).spec_grid() == old(self).spec_grid(),
    {
        match grid_get_mut(self.grid_mut(), row, col) {
            Some(cell) => {
                *cell = Cell::Live;
                true
            },
            None => false,
        }
    }
}

} // verus!
