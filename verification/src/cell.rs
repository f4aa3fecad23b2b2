//! The two-state cell and the local transition rule.

use vstd::prelude::*;

verus! {

/// The state of one grid position.
#[derive(Clone, Copy, Debug, PartialEq, Eq, Structural)]
pub enum Cell {
    Dead,
    Alive,
}

impl Cell {
    /// What this cell adds to the live-neighbour count of an adjacent cell:
    /// one when alive, nothing when dead.
    pub open spec fn weight(self) -> nat {
        match self {
            Cell::Dead => 0,
            Cell::Alive => 1,
        }
    }

    /// The character that stands for this cell in a text snapshot.
    pub open spec fn symbol(self) -> char {
        match self {
            Cell::Dead => '\u{25FB}',
            Cell::Alive => '\u{25FC}',
        }
    }

    /// The state of this cell in the next generation, given how many of its
    /// eight neighbours are alive now: a cell is alive next iff it has
    /// exactly three live neighbours, or is alive and has exactly two.
    pub open spec fn successor(self, live_neighbours: nat) -> Cell {
        if live_neighbours == 3 || (self == Cell::Alive && live_neighbours == 2) {
            Cell::Alive
        } else {
            Cell::Dead
        }
    }

    /// Builds a cell from a flag: alive when the flag is set.
    pub open spec fn of(alive: bool) -> Cell {
        if alive {
            Cell::Alive
        } else {
            Cell::Dead
        }
    }

    /// Builds a cell from a flag: alive when the flag is set.
    pub fn from_alive(alive: bool) -> (c: Cell)
        ensures
            c == Cell::of(alive),
    {
        if alive {
            Cell::Alive
        } else {
            Cell::Dead
        }
    }

    /// The cell as a small number: 0 for dead, 1 for alive.
    pub fn value(self) -> (v: u8)
        ensures
            v == self.weight(),
    {
        match self {
            Cell::Dead => 0,
            Cell::Alive => 1,
        }
    }

    /// The glyph that stands for this cell in a text snapshot, as text of one
    /// character.
    pub fn glyph(self) -> (s: &'static str)
        ensures
            s@ == seq![self.symbol()],
    {
        match self {
            Cell::Dead => {
                proof {
                    reveal_strlit("\u{25FB}");
                }
                assert("\u{25FB}"@ =~= seq!['\u{25FB}']);
                "\u{25FB}"
            },
            Cell::Alive => {
                proof {
                    reveal_strlit("\u{25FC}");
                }
                assert("\u{25FC}"@ =~= seq!['\u{25FC}']);
                "\u{25FC}"
            },
        }
    }

    /// Applies the transition rule to one cell.
    pub fn next(self, live_neighbours: u8) -> (c: Cell)
        ensures
            c == self.successor(live_neighbours as nat),
    {
        match self {
            Cell::Alive => {
                if live_neighbours < 2 {
                    // underpopulation
                    Cell::Dead
                } else if live_neighbours == 2 || live_neighbours == 3 {
                    // survival
                    Cell::Alive
                } else {
                    // overpopulation
                    Cell::Dead
                }
            },
            Cell::Dead => {
                if live_neighbours == 3 {
                    // reproduction
                    Cell::Alive
                } else {
                    Cell::Dead
                }
            },
        }
    }
}

} // verus!
