//! The mathematical model of a universe: dimensions and a row-major
//! sequence of cells, with the neighbourhood, the generation step and the
//! text snapshot defined over it.

use vstd::prelude::*;
use vstd::arithmetic::div_mod::*;
use crate::cell::Cell;

verus! {

/// A grid of cells as a mathematical value.
pub struct Grid {
    pub width: nat,
    pub height: nat,
    pub cells: Seq<Cell>,
}

impl Grid {
    /// Both dimensions are positive and there is exactly one cell per
    /// position.
    pub open spec fn wf(self) -> bool {
        &&& self.width > 0
        &&& self.height > 0
        &&& self.cells.len() == self.width * self.height
    }

    /// `(row, col)` names a position of the grid.
    pub open spec fn in_bounds(self, row: int, col: int) -> bool {
        0 <= row < self.height && 0 <= col < self.width
    }

    /// Row-major position of `(row, col)` in `cells`.
    pub open spec fn index(self, row: int, col: int) -> int {
        row * self.width + col
    }

    /// The cell at `(row, col)`.
    pub open spec fn at(self, row: int, col: int) -> Cell {
        self.cells[self.index(row, col)]
    }

    /// The cell at `(row, col)` on the torus: coordinates beyond an edge
    /// continue from the opposite edge.
    pub open spec fn at_wrapped(self, row: int, col: int) -> Cell {
        self.at(row % (self.height as int), col % (self.width as int))
    }

    /// Number of live cells among the eight neighbours of `(row, col)` on
    /// the torus. Each of the eight offsets counts by itself, also where two
    /// of them reach the same cell in a grid one or two cells wide or tall.
    pub open spec fn live_neighbours(self, row: int, col: int) -> nat {
        self.at_wrapped(row - 1, col - 1).weight()
            + self.at_wrapped(row - 1, col).weight()
            + self.at_wrapped(row - 1, col + 1).weight()
            + self.at_wrapped(row, col - 1).weight()
            + self.at_wrapped(row, col + 1).weight()
            + self.at_wrapped(row + 1, col - 1).weight()
            + self.at_wrapped(row + 1, col).weight()
            + self.at_wrapped(row + 1, col + 1).weight()
    }

    /// The cell that stands at position `i` of `cells` one generation later.
    pub open spec fn next_cell(self, i: int) -> Cell {
        self.cells[i].successor(
            self.live_neighbours(i / (self.width as int), i % (self.width as int)),
        )
    }

    /// The grid one generation later: every cell is replaced at once by its
    /// successor under the rule, computed from this grid alone.
    pub open spec fn stepped(self) -> Grid {
        Grid {
            width: self.width,
            height: self.height,
            cells: Seq::new(self.cells.len(), |i: int| self.next_cell(i)),
        }
    }

    /// The grid `n` generations later.
    pub open spec fn after(self, n: nat) -> Grid
        decreases n,
    {
        if n == 0 {
            self
        } else {
            self.after((n - 1) as nat).stepped()
        }
    }

    /// The grid with every cell dead and the same dimensions.
    pub open spec fn cleared(self) -> Grid {
        Grid {
            width: self.width,
            height: self.height,
            cells: Seq::new(self.cells.len(), |i: int| Cell::Dead),
        }
    }

    /// Every cell is dead.
    pub open spec fn all_dead(self) -> bool {
        forall|i: int| 0 <= i < self.cells.len() ==> self.cells[i] == Cell::Dead
    }

    /// The grid with the cell at `(row, col)` alive and all others as they
    /// are.
    pub open spec fn with_alive(self, row: int, col: int) -> Grid {
        Grid {
            width: self.width,
            height: self.height,
            cells: self.cells.update(self.index(row, col), Cell::Alive),
        }
    }

    /// The grid of the given dimensions whose cell `i` is alive iff flag `i`
    /// is set.
    pub open spec fn seeded(width: nat, height: nat, alive: Seq<bool>) -> Grid {
        Grid { width, height, cells: Seq::new(alive.len(), |i: int| Cell::of(alive[i])) }
    }

    /// The first `cols` glyphs of the line for `row`.
    pub open spec fn line_prefix(self, row: int, cols: nat) -> Seq<char> {
        Seq::new(cols, |col: int| self.at(row, col).symbol())
    }

    /// One line of the text snapshot: a glyph for each cell of the row, then
    /// a line break.
    pub open spec fn line(self, row: int) -> Seq<char> {
        self.line_prefix(row, self.width).push('\n')
    }

    /// The lines of the first `rows` rows, one after the other.
    pub open spec fn lines(self, rows: nat) -> Seq<char>
        decreases rows,
    {
        if rows == 0 {
            Seq::empty()
        } else {
            self.lines((rows - 1) as nat) + self.line(rows - 1)
        }
    }

    /// The text snapshot of the whole grid.
    pub open spec fn rendered(self) -> Seq<char> {
        self.lines(self.height)
    }

    /// A position of the grid has its own place in `cells`, and the place
    /// gives the position back.
    pub proof fn lemma_index(self, row: int, col: int)
        requires
            self.wf(),
            self.in_bounds(row, col),
        ensures
            0 <= self.index(row, col) < self.cells.len(),
            self.index(row, col) / (self.width as int) == row,
            self.index(row, col) % (self.width as int) == col,
    {
        let w = self.width as int;
        let h = self.height as int;
        assert(0 <= row * w + col < w * h) by (nonlinear_arith)
            requires
                0 <= row < h,
                0 <= col < w,
        ;
        lemma_fundamental_div_mod_converse(row * w + col, w, row, col);
    }

    /// Every place in `cells` belongs to exactly one position of the grid.
    pub proof fn lemma_position(self, i: int)
        requires
            self.wf(),
            0 <= i < self.cells.len(),
        ensures
            self.in_bounds(i / (self.width as int), i % (self.width as int)),
            self.index(i / (self.width as int), i % (self.width as int)) == i,
    {
        let w = self.width as int;
        let h = self.height as int;
        lemma_fundamental_div_mod(i, w);
        lemma_mod_bound(i, w);
        assert(0 <= i / w < h) by (nonlinear_arith)
            requires
                0 <= i < w * h,
                0 < w,
                i == w * (i / w) + i % w,
                0 <= i % w < w,
        ;
        assert(w * (i / w) == (i / w) * w) by (nonlinear_arith);
    }

    /// Stepping off an edge of a ring of `n` places arrives at the other
    /// edge; elsewhere a step moves by one.
    pub proof fn lemma_ring(i: int, n: int)
        requires
            0 <= i < n,
        ensures
            i % n == i,
            (i - 1) % n == (if i == 0 { n - 1 } else { i - 1 }),
            (i + 1) % n == (if i == n - 1 { 0 } else { i + 1 }),
    {
        lemma_small_mod(i as nat, n as nat);
        if i == 0 {
            lemma_mod_add_multiples_vanish(-1, n);
            lemma_small_mod((n - 1) as nat, n as nat);
        } else {
            lemma_small_mod((i - 1) as nat, n as nat);
        }
        if i == n - 1 {
            lemma_mod_self_0(n);
        } else {
            lemma_small_mod((i + 1) as nat, n as nat);
        }
    }
}

} // verus!
