//! The executable universe: the grid held in memory, with construction,
//! single-cell writes, the generation step and the text snapshot.

use vstd::prelude::*;
use vstd::string::*;
use crate::cell::Cell;
use crate::grid::Grid;

verus! {

/// A toroidal grid of cells of fixed dimensions.
pub struct Universe {
    width: u32,
    height: u32,
    cells: Vec<Cell>,
}

impl View for Universe {
    type V = Grid;

    closed spec fn view(&self) -> Grid {
        Grid { width: self.width as nat, height: self.height as nat, cells: self.cells@ }
    }
}

impl Universe {
    /// The universe holds a well-formed grid whose cell count fits the
    /// 32-bit arithmetic used for positions.
    pub open spec fn wf(&self) -> bool {
        &&& self@.wf()
        &&& self@.cells.len() <= u32::MAX
    }

    /// A grid of these dimensions can be built from `samples` flags: both
    /// dimensions are positive, their product fits 32 bits, and there is one
    /// flag per cell.
    pub open spec fn buildable(width: u32, height: u32, samples: nat) -> bool {
        &&& width > 0
        &&& height > 0
        &&& width * height <= u32::MAX
        &&& samples == width * height
    }

    /// Builds a universe of the given dimensions whose cell `i`, in row-major
    /// order, is alive iff `alive[i]` is set. Dimensions of zero, a grid too
    /// large to index with 32 bits and a wrong number of flags are rejected.
    pub fn new(width: u32, height: u32, alive: &[bool]) -> (made: Option<Universe>)
        ensures
            made.is_some() <==> Universe::buildable(width, height, alive@.len()),
            made matches Some(u) ==> u.wf() && u@ == Grid::seeded(
                width as nat,
                height as nat,
                alive@,
            ),
    {
        if width == 0 || height == 0 {
            return None;
        }
        let count: u32 = match width.checked_mul(height) {
            Some(n) => n,
            None => {
                return None;
            },
        };
        if alive.len() != count as usize {
            return None;
        }
        let mut cells: Vec<Cell> = Vec::new();
        let mut i: usize = 0;
        while i < alive.len()
            invariant
                i <= alive.len(),
                cells.len() == i,
                forall|k: int| 0 <= k < i ==> cells@[k] == Cell::of(alive@[k]),
            decreases alive.len() - i,
        {
            cells.push(Cell::from_alive(alive[i]));
            i += 1;
        }
        let made = Universe { width, height, cells };
        assert(made@.cells =~= Grid::seeded(width as nat, height as nat, alive@).cells);
        Some(made)
    }

    /// Number of columns.
    pub fn width(&self) -> (w: u32)
        ensures
            w == self@.width,
    {
        self.width
    }

    /// Number of rows.
    pub fn height(&self) -> (h: u32)
        ensures
            h == self@.height,
    {
        self.height
    }

    /// The cell buffer in row-major order, borrowed for reading. The borrow
    /// ends before the next call that changes the universe.
    pub fn cells(&self) -> (buffer: &[Cell])
        ensures
            buffer@ == self@.cells,
    {
        self.cells.as_slice()
    }

    /// Row-major position of `(row, column)` in the cell buffer.
    pub fn get_index(&self, row: u32, column: u32) -> (i: usize)
        requires
            self.wf(),
            self@.in_bounds(row as int, column as int),
        ensures
            i == self@.index(row as int, column as int),
            i < self@.cells.len(),
    {
        proof {
            self@.lemma_index(row as int, column as int);
        }
        (row * self.width + column) as usize
    }

    /// Makes the cell at `(row, column)` alive and leaves all others as they
    /// are.
    pub fn set_alive(&mut self, row: u32, column: u32)
        requires
            old(self).wf(),
            old(self)@.in_bounds(row as int, column as int),
        ensures
            final(self).wf(),
            final(self)@ == old(self)@.with_alive(row as int, column as int),
    {
        let cell_index = self.get_index(row, column);
        self.cells.set(cell_index, Cell::Alive);
    }

    /// Makes every cell dead. The dimensions stay.
    pub fn clear(&mut self)
        requires
            old(self).wf(),
        ensures
            final(self).wf(),
            final(self)@ == old(self)@.cleared(),
    {
        let count = self.cells.len();
        let mut dead: Vec<Cell> = Vec::new();
        let mut i: usize = 0;
        while i < count
            invariant
                i <= count,
                dead.len() == i,
                forall|k: int| 0 <= k < i ==> dead@[k] == Cell::Dead,
            decreases count - i,
        {
            dead.push(Cell::Dead);
            i += 1;
        }
        assert(dead@ =~= old(self)@.cleared().cells);
        self.cells = dead;
    }

    /// Counts the live cells among the eight neighbours of `(row, column)`,
    /// wrapping around both axes.
    pub fn live_neighbour_count(&self, row: u32, column: u32) -> (count: u8)
        requires
            self.wf(),
            self@.in_bounds(row as int, column as int),
        ensures
            count == self@.live_neighbours(row as int, column as int),
            count <= 8,
    {
        let mut count: u8 = 0;

        let north = if row == 0 { self.height - 1 } else { row - 1 };
        let south = if row == self.height - 1 { 0 } else { row + 1 };
        let west = if column == 0 { self.width - 1 } else { column - 1 };
        let east = if column == self.width - 1 { 0 } else { column + 1 };

        proof {
            Grid::lemma_ring(row as int, self.height as int);
            Grid::lemma_ring(column as int, self.width as int);
        }

        let nw = self.get_index(north, west);
        count += self.cells[nw].value();

        let n = self.get_index(north, column);
        count += self.cells[n].value();

        let ne = self.get_index(north, east);
        count += self.cells[ne].value();

        let w = self.get_index(row, west);
        count += self.cells[w].value();

        let e = self.get_index(row, east);
        count += self.cells[e].value();

        let sw = self.get_index(south, west);
        count += self.cells[sw].value();

        let s = self.get_index(south, column);
        count += self.cells[s].value();

        let se = self.get_index(south, east);
        count += self.cells[se].value();

        count
    }

    /// Advances the universe by one generation: every cell is replaced by
    /// its successor under the rule, all computed from the state before the
    /// call.
    pub fn tick(&mut self)
        requires
            old(self).wf(),
        ensures
            final(self).wf(),
            final(self)@ == old(self)@.stepped(),
    {
        let ghost before = self@;
        let mut next: Vec<Cell> = self.cells.clone();

        let mut row: u32 = 0;
        while row < self.height
            invariant
                self.wf(),
                self@ == before,
                row <= self.height,
                next.len() == before.cells.len(),
                forall|i: int| 0 <= i < row * before.width ==> next@[i] == before.next_cell(i),
            decreases self.height - row,
        {
            let mut col: u32 = 0;
            while col < self.width
                invariant
                    self.wf(),
                    self@ == before,
                    row < self.height,
                    col <= self.width,
                    next.len() == before.cells.len(),
                    forall|i: int|
                        0 <= i < row * before.width + col ==> next@[i] == before.next_cell(i),
                decreases self.width - col,
            {
                let cell_index = self.get_index(row, col);
                let cell = self.cells[cell_index];
                let live_neighbours = self.live_neighbour_count(row, col);
                proof {
                    before.lemma_index(row as int, col as int);
                }
                next.set(cell_index, cell.next(live_neighbours));
                col += 1;
            }
            proof {
                let w = before.width as int;
                assert(row * w + w == (row + 1) * w) by (nonlinear_arith);
            }
            row += 1;
        }
        assert(next@ =~= before.stepped().cells);
        self.cells = next;
    }

    /// The text snapshot: one line per row, a glyph per cell, a line break
    /// after every row.
    pub fn render(&self) -> (text: String)
        requires
            self.wf(),
        ensures
            text@ == self@.rendered(),
    {
        let mut text = String::new();
        let mut row: u32 = 0;
        while row < self.height
            invariant
                self.wf(),
                row <= self.height,
                text@ == self@.lines(row as nat),
            decreases self.height - row,
        {
            let mut col: u32 = 0;
            while col < self.width
                invariant
                    self.wf(),
                    row < self.height,
                    col <= self.width,
                    text@ == self@.lines(row as nat) + self@.line_prefix(row as int, col as nat),
                decreases self.width - col,
            {
                let cell_index = self.get_index(row, col);
                let cell = self.cells[cell_index];
                text.append(cell.glyph());
                assert(self@.line_prefix(row as int, (col + 1) as nat)
                    =~= self@.line_prefix(row as int, col as nat) + seq![cell.symbol()]);
                assert(text@ =~= self@.lines(row as nat) + self@.line_prefix(
                    row as int,
                    (col + 1) as nat,
                ));
                col += 1;
            }
            proof {
                reveal_strlit("\n");
            }
            text.append("\n");
            assert("\n"@ =~= seq!['\n']);
            assert(text@ =~= self@.lines((row + 1) as nat));
            row += 1;
        }
        text
    }
}

} // verus!
