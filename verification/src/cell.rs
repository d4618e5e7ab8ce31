//! The state of one grid position and the rule that decides its next state.

use vstd::prelude::*;

verus! {

/// The binary state of a cell.
#[derive(Debug, PartialEq, Eq, Structural)]
pub enum Cell {
    Live,
    Dead,
}

/// The state a cell takes in the next generation, given its current state
/// and the number of live cells around it: a live cell survives on two or
/// three, a dead cell is born on exactly three.
pub open spec fn next_state(cell: Cell, live_around: int) -> Cell {
    match cell {
        Cell::Live => if live_around == 2 || live_around == 3 {
            Cell::Live
        } else {
            Cell::Dead
        },
        Cell::Dead => if live_around == 3 {
            Cell::Live
        } else {
            Cell::Dead
        },
    }
}

/// The other state.
pub open spec fn flipped(cell: Cell) -> Cell {
    match cell {
        Cell::Live => Cell::Dead,
        Cell::Dead => Cell::Live,
    }
}

/// The character a cell is drawn with.
pub open spec fn glyph(cell: Cell) -> char {
    match cell {
        Cell::Live => 'X',
        Cell::Dead => ' ',
    }
}

impl Default for Cell {
    /// A cell starts out dead.
    fn default() -> (cell: Cell)
        ensures
            cell == Cell::Dead,
    {
        Cell::Dead
    }
}

impl Cell {
    /// The character this cell is drawn with: `'X'` when live, a blank when
    /// dead.
    pub fn as_char(&self) -> (c: char)
        ensures
            c == glyph(*self),
    {
        match self {
            Cell::Live => 'X',
            Cell::Dead => ' ',
        }
    }

    /// Whether the rule gives this cell, with `neighs` live cells around it,
    /// a state other than the one it has.
    pub fn has_to_change(&self, neighs: usize) -> (changes: bool)
        ensures
            changes == (next_state(*self, neighs as int) != *self),
    {
        let substitute = match self {
            Cell::Live => {
                if neighs == 2 || neighs == 3 {
                    Cell::Live
                } else {
                    Cell::Dead
                }
            },
            Cell::Dead => {
                if neighs == 3 {
                    Cell::Live
                } else {
                    Cell::Dead
                }
            },
        };
        *self != substitute
    }

    /// The other state: live for a dead cell, dead for a live one.
    pub fn switched(&self) -> (other: Cell)
        ensures
            other == flipped(*self),
    {
        match *self {
            Cell::Dead => Cell::Live,
            Cell::Live => Cell::Dead,
        }
    }
}

} // verus!
