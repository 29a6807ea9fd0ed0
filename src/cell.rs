use vstd::prelude::*;

verus! {

/// The state of one cell of the grid.
#[derive(Clone, Copy, Debug, PartialEq, Eq, Structural)]
pub enum Cell {
    Dead,
    Alive,
}

/// The numeric value of a cell in a neighbour sum: `Alive` counts 1, `Dead` 0.
pub open spec fn live_value(c: Cell) -> int {
    match c {
        Cell::Alive => 1,
        Cell::Dead => 0,
    }
}

/// The other state: `Alive` for `Dead` and `Dead` for `Alive`.
pub open spec fn flipped(c: Cell) -> Cell {
    match c {
        Cell::Alive => Cell::Dead,
        Cell::Dead => Cell::Alive,
    }
}

/// The state that a cell in state `c` with `n` live neighbours has in the next
/// generation.
pub open spec fn next_state(c: Cell, n: int) -> Cell {
    if c == Cell::Alive && n < 2 {
        Cell::Dead
    } else if c == Cell::Alive && (n == 2 || n == 3) {
        Cell::Alive
    } else if c == Cell::Alive && n > 3 {
        Cell::Dead
    } else if c == Cell::Dead && n == 3 {
        Cell::Alive
    } else {
        c
    }
}

impl Cell {
    /// Flips the cell between `Alive` and `Dead`.
    pub fn toggle(&mut self)
        ensures
            *final(self) == flipped(*old(self)),
    {
        *self = match *self {
            Cell::Alive => Cell::Dead,
            Cell::Dead => Cell::Alive,
        };
    }

    /// The value this cell adds to a neighbour count.
    pub fn value(&self) -> (r: u8)
        ensures
            r as int == live_value(*self),
    {
        match *self {
            Cell::Alive => 1,
            Cell::Dead => 0,
        }
    }

    /// Applies the birth and death rules to a cell with `live_neighbours` live
    /// neighbours.
    pub fn next(&self, live_neighbours: u8) -> (r: Cell)
        ensures
            r == next_state(*self, live_neighbours as int),
    {
        match *self {
            Cell::Alive => {
                if live_neighbours < 2 {
                    Cell::Dead
                } else if live_neighbours == 2 || live_neighbours == 3 {
                    Cell::Alive
                } else {
                    Cell::Dead
                }
            },
            Cell::Dead => {
                if live_neighbours == 3 {
                    Cell::Alive
                } else {
                    Cell::Dead
                }
            },
        }
    }
}

/// The pattern that a new cell buffer is seeded with.
#[derive(Clone, Copy, Debug, PartialEq, Eq, Structural)]
pub enum InitialState {
    Random,
    SingleShip,
    ModTwoSeven,
}

} // verus!
