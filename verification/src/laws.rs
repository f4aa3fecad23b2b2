//! What holds of every grid: the shape invariant, the neighbourhood on the
//! torus, the fate of lonely and crowded cells, the dead grid as a fixed
//! point, and the shape of the text snapshot.

use vstd::prelude::*;
use crate::cell::Cell;
use crate::grid::Grid;

verus! {

/// A generation step keeps the dimensions and the shape: a well-formed grid
/// steps to a well-formed grid of the same width and height.
pub proof fn lemma_step_keeps_shape(g: Grid)
    requires
        g.wf(),
    ensures
        g.stepped().wf(),
        g.stepped().width == g.width,
        g.stepped().height == g.height,
        g.stepped().cells.len() == g.width * g.height,
{
}

/// After any number of generations the grid still has one cell per position
/// and its first dimensions.
pub proof fn lemma_generations_keep_shape(g: Grid, n: nat)
    requires
        g.wf(),
    ensures
        g.after(n).wf(),
        g.after(n).width == g.width,
        g.after(n).height == g.height,
        g.after(n).cells.len() == g.width * g.height,
    decreases n,
{
    if n > 0 {
        lemma_generations_keep_shape(g, (n - 1) as nat);
        lemma_step_keeps_shape(g.after((n - 1) as nat));
    }
}

/// Clearing and setting a cell alive keep the shape too.
pub proof fn lemma_writes_keep_shape(g: Grid, row: int, col: int)
    requires
        g.wf(),
        g.in_bounds(row, col),
    ensures
        g.cleared().wf(),
        g.cleared().width == g.width && g.cleared().height == g.height,
        g.with_alive(row, col).wf(),
        g.with_alive(row, col).width == g.width && g.with_alive(row, col).height == g.height,
{
    g.lemma_index(row, col);
}

/// A cell never has more than eight live neighbours.
pub proof fn lemma_neighbour_count_range(g: Grid, row: int, col: int)
    ensures
        0 <= g.live_neighbours(row, col) <= 8,
{
}

/// On the torus the neighbours of an inner position are the eight cells
/// around it, and at an edge the missing ones come from the opposite edge.
pub proof fn lemma_neighbourhood(g: Grid, row: int, col: int)
    requires
        g.wf(),
        g.in_bounds(row, col),
    ensures
        ({
            let north = if row == 0 { g.height - 1 } else { row - 1 };
            let south = if row == g.height - 1 { 0 } else { row + 1 };
            let west = if col == 0 { g.width - 1 } else { col - 1 };
            let east = if col == g.width - 1 { 0 } else { col + 1 };
            &&& g.in_bounds(north, west)
            &&& g.in_bounds(south, east)
            &&& g.live_neighbours(row, col) == g.at(north, west).weight() + g.at(
                north,
                col,
            ).weight() + g.at(north, east).weight() + g.at(row, west).weight() + g.at(
                row,
                east,
            ).weight() + g.at(south, west).weight() + g.at(south, col).weight() + g.at(
                south,
                east,
            ).weight()
        }),
{
    Grid::lemma_ring(row, g.height as int);
    Grid::lemma_ring(col, g.width as int);
}

/// The cell in the last row and last column is a neighbour of the cell in
/// the first row and first column: it is what lies north-west of it across
/// both edges, and it is counted when alive. This holds of every grid, and so
/// of those at least two cells wide and tall, where the two cells differ.
pub proof fn lemma_corner_wraps(g: Grid)
    requires
        g.wf(),
    ensures
        g.at_wrapped(0 - 1, 0 - 1) == g.at(g.height - 1, g.width - 1),
        g.live_neighbours(0, 0) >= g.at(g.height - 1, g.width - 1).weight(),
        g.at(g.height - 1, g.width - 1) == Cell::Alive ==> g.live_neighbours(0, 0) >= 1,
{
    Grid::lemma_ring(0, g.height as int);
    Grid::lemma_ring(0, g.width as int);
    lemma_neighbourhood(g, 0, 0);
}

/// One generation replaces the cell at every position by its successor under
/// the rule, judged by its neighbours before the step.
pub proof fn lemma_step_cellwise(g: Grid, row: int, col: int)
    requires
        g.wf(),
        g.in_bounds(row, col),
    ensures
        g.stepped().at(row, col) == g.at(row, col).successor(g.live_neighbours(row, col)),
{
    g.lemma_index(row, col);
}

/// The rule as a table: a live cell survives with two or three live
/// neighbours and dies otherwise; a dead cell comes alive with exactly three
/// and stays dead otherwise.
pub proof fn lemma_rule_table(cell: Cell, n: nat)
    ensures
        cell == Cell::Alive && n < 2 ==> cell.successor(n) == Cell::Dead,
        cell == Cell::Alive && (n == 2 || n == 3) ==> cell.successor(n) == Cell::Alive,
        cell == Cell::Alive && n > 3 ==> cell.successor(n) == Cell::Dead,
        cell == Cell::Dead && n == 3 ==> cell.successor(n) == Cell::Alive,
        cell == Cell::Dead && n != 3 ==> cell.successor(n) == cell,
{
}

/// Underpopulation: a live cell with fewer than two live neighbours, and so
/// one with none, is dead after one generation.
pub proof fn lemma_underpopulation(g: Grid, row: int, col: int)
    requires
        g.wf(),
        g.in_bounds(row, col),
        g.at(row, col) == Cell::Alive,
        g.live_neighbours(row, col) < 2,
    ensures
        g.stepped().at(row, col) == Cell::Dead,
{
    lemma_step_cellwise(g, row, col);
}

/// Overpopulation: a live cell with more than three live neighbours, and so
/// one with all eight alive, is dead after one generation.
pub proof fn lemma_overpopulation(g: Grid, row: int, col: int)
    requires
        g.wf(),
        g.in_bounds(row, col),
        g.at(row, col) == Cell::Alive,
        g.live_neighbours(row, col) > 3,
    ensures
        g.stepped().at(row, col) == Cell::Dead,
{
    lemma_step_cellwise(g, row, col);
}

/// Clearing twice gives the same grid as clearing once, and that grid is all
/// dead.
pub proof fn lemma_clear_idempotent(g: Grid)
    ensures
        g.cleared().cleared() == g.cleared(),
        g.cleared().all_dead(),
{
    assert(g.cleared().cleared().cells =~= g.cleared().cells);
}

/// The all-dead grid is a fixed point of the generation step.
pub proof fn lemma_dead_grid_is_fixed(g: Grid)
    requires
        g.wf(),
        g.all_dead(),
    ensures
        g.stepped() == g,
{
    assert forall|i: int| 0 <= i < g.cells.len() implies g.next_cell(i) == Cell::Dead by {
        g.lemma_position(i);
        let row = i / (g.width as int);
        let col = i % (g.width as int);
        lemma_neighbourhood(g, row, col);
        let north = if row == 0 { g.height - 1 } else { row - 1 };
        let south = if row == g.height - 1 { 0 } else { row + 1 };
        let west = if col == 0 { g.width - 1 } else { col - 1 };
        let east = if col == g.width - 1 { 0 } else { col + 1 };
        g.lemma_index(north, west);
        g.lemma_index(north, col);
        g.lemma_index(north, east);
        g.lemma_index(row, west);
        g.lemma_index(row, east);
        g.lemma_index(south, west);
        g.lemma_index(south, col);
        g.lemma_index(south, east);
        assert(g.live_neighbours(row, col) == 0);
    }
    assert(g.stepped().cells =~= g.cells);
}

/// After a clear, every later generation is still the all-dead grid.
pub proof fn lemma_cleared_stays_dead(g: Grid, n: nat)
    requires
        g.wf(),
    ensures
        g.cleared().after(n) == g.cleared(),
    decreases n,
{
    if n > 0 {
        lemma_cleared_stays_dead(g, (n - 1) as nat);
        lemma_dead_grid_is_fixed(g.cleared());
    }
}

/// A line of the snapshot holds one glyph for each cell of its row, none of
/// them a line break, and ends in a line break.
pub proof fn lemma_line_shape(g: Grid, row: int)
    ensures
        g.line(row).len() == g.width + 1,
        g.line(row)[g.width as int] == '\n',
        forall|col: int|
            0 <= col < g.width ==> #[trigger] g.line(row)[col] == g.at(row, col).symbol()
                && g.line(row)[col] != '\n',
{
}

/// The first `rows` lines take `rows * (width + 1)` characters, and line
/// `row` of them stands at its own place, after the lines before it.
pub proof fn lemma_lines_shape(g: Grid, rows: nat, row: int)
    requires
        0 <= row < rows,
    ensures
        g.lines(rows).len() == rows * (g.width + 1),
        0 <= row * (g.width + 1) < (row + 1) * (g.width + 1) <= g.lines(rows).len(),
        g.lines(rows).subrange(row * (g.width + 1), (row + 1) * (g.width + 1)) == g.line(row),
    decreases rows,
{
    let n = (g.width + 1) as int;
    let before = g.lines((rows - 1) as nat);
    assert((rows - 1) * n + n == rows * n) by (nonlinear_arith);
    assert(0 <= row * n < (row + 1) * n <= rows * n) by (nonlinear_arith)
        requires
            0 <= row < rows,
            n > 0,
    ;
    if rows == 1 {
        assert(before.len() == 0);
    } else {
        lemma_lines_shape(g, (rows - 1) as nat, 0);
    }
    assert(before.len() == (rows - 1) * n);
    if row == rows - 1 {
        assert(g.lines(rows).subrange(row * n, (row + 1) * n) =~= g.line(row));
    } else {
        lemma_lines_shape(g, (rows - 1) as nat, row);
        assert(g.lines(rows).subrange(row * n, (row + 1) * n) =~= before.subrange(
            row * n,
            (row + 1) * n,
        ));
    }
}

/// The text snapshot has exactly `height` lines of `width` glyphs each: its
/// length is `height * (width + 1)`, and for every row the characters at the
/// row's place are that row's glyphs in order, followed by a line break.
pub proof fn lemma_render_shape(g: Grid, row: int, col: int)
    requires
        g.wf(),
        g.in_bounds(row, col),
    ensures
        g.rendered().len() == g.height * (g.width + 1),
        0 <= row * (g.width + 1) + col < row * (g.width + 1) + g.width < g.rendered().len(),
        g.rendered()[row * (g.width + 1) + col] == g.at(row, col).symbol(),
        g.rendered()[row * (g.width + 1) + col] != '\n',
        g.rendered()[row * (g.width + 1) + g.width] == '\n',
{
    let n = (g.width + 1) as int;
    lemma_lines_shape(g, g.height, row);
    lemma_line_shape(g, row);
    let part = g.rendered().subrange(row * n, (row + 1) * n);
    assert((row + 1) * n == row * n + n) by (nonlinear_arith);
    assert(part[col] == g.rendered()[row * n + col]);
    assert(part[g.width as int] == g.rendered()[row * n + g.width]);
    assert(g.line(row)[col] == g.at(row, col).symbol());
}

} // verus!
