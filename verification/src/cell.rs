//! The state of a single grid cell and the Game of Life transition rule.

use vstd::prelude::*;

verus! {

/// The state of one grid cell. `Dead` and `Alive` are the only states; the
/// numeric weight of a cell (0 or 1) is given by `cell_weight`, so that live
/// neighbors can be counted by summation.
#[derive(Clone, Copy, Debug, PartialEq, Eq, Structural)]
pub enum Cell {
    Dead,
    Alive,
}

/// Numeric weight of a cell: a live cell counts 1 toward a neighbor sum, a
/// dead cell counts 0.
pub open spec fn cell_weight(c: Cell) -> int {
    match c {
        Cell::Dead => 0,
        Cell::Alive => 1,
    }
}

/// The opposite state of `c`.
pub open spec fn toggled(c: Cell) -> Cell {
    match c {
        Cell::Dead => Cell::Alive,
        Cell::Alive => Cell::Dead,
    }
}

/// The Game of Life transition rule for one cell, evaluated against the
/// pre-step state `c` and the number `live_neighbors` of live cells among
/// the eight toroidally adjacent cells:
/// - a live cell with fewer than two live neighbors dies (underpopulation),
/// - a live cell with two or three live neighbors survives,
/// - a live cell with more than three live neighbors dies (overpopulation),
/// - a dead cell with exactly three live neighbors becomes alive
///   (reproduction), and any other dead cell stays dead.
pub open spec fn next_state(c: Cell, live_neighbors: int) -> Cell {
    match c {
        Cell::Alive => if 2 <= live_neighbors && live_neighbors <= 3 {
            Cell::Alive
        } else {
            Cell::Dead
        },
        Cell::Dead => if live_neighbors == 3 {
            Cell::Alive
        } else {
            Cell::Dead
        },
    }
}

impl Cell {
    /// Flip this cell between `Dead` and `Alive`.
    pub fn toggle(&mut self)
        ensures
            *final(self) == toggled(*old(self)),
    {
        *self = match *self {
            Cell::Dead => Cell::Alive,
            Cell::Alive => Cell::Dead,
        };
    }
}

} // verus!
