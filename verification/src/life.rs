//! The generation transition.

use vstd::prelude::*;
use crate::grid::{height, inside, well_formed, width, Cell, Cells, Grid};

verus! {

/// The value of the cell at `(r, c)`, and `0` for a position outside the
/// grid: the grid has hard edges, and what lies beyond them counts as dead.
pub open spec fn cell_at(g: Cells, r: int, c: int) -> int {
    if inside(g, r, c) {
        g[r][c] as int
    } else {
        0
    }
}

/// The number of live cells among the eight positions around `(r, c)`.
pub open spec fn live_neighbors(g: Cells, r: int, c: int) -> int {
    cell_at(g, r - 1, c - 1) + cell_at(g, r - 1, c) + cell_at(g, r - 1, c + 1)
        + cell_at(g, r, c - 1) + cell_at(g, r, c + 1)
        + cell_at(g, r + 1, c - 1) + cell_at(g, r + 1, c) + cell_at(g, r + 1, c + 1)
}

/// The rule of Life: a live cell survives with two or three live neighbours,
/// a dead cell comes alive with exactly three.
pub open spec fn lives_on(cell: Cell, neighbors: int) -> bool {
    (cell > 0 && 2 <= neighbors <= 3) || (cell == 0 && neighbors == 3)
}

/// The cell at `(r, c)` one generation later.
pub open spec fn successor_cell(g: Cells, r: int, c: int) -> Cell {
    if lives_on(g[r][c], live_neighbors(g, r, c)) {
        1
    } else {
        0
    }
}

/// The grid one generation later: every cell is replaced, all at once, by
/// its successor in `g`.
pub open spec fn successor(g: Cells) -> Cells {
    Seq::new(g.len(), |r: int| Seq::new(g[r].len(), |c: int| successor_cell(g, r, c)))
}

/// The sum of the cells of row `r` in the columns `c_lo <= c < c_hi`.
pub open spec fn span_sum(g: Cells, r: int, c_lo: int, c_hi: int) -> int
    decreases c_hi - c_lo,
{
    if c_hi <= c_lo {
        0
    } else {
        span_sum(g, r, c_lo, c_hi - 1) + cell_at(g, r, c_hi - 1)
    }
}

/// The sum of the cells in the rows `r_lo <= r < r_hi` and the columns
/// `c_lo <= c < c_hi`.
pub open spec fn window_sum(g: Cells, r_lo: int, r_hi: int, c_lo: int, c_hi: int) -> int
    decreases r_hi - r_lo,
{
    if r_hi <= r_lo {
        0
    } else {
        window_sum(g, r_lo, r_hi - 1, c_lo, c_hi) + span_sum(g, r_hi - 1, c_lo, c_hi)
    }
}

/// The window of three rows and three columns round `(r, c)`, cut off at the
/// edges of the grid, sums to the cell itself plus its live neighbours.
pub proof fn lemma_clipped_window(g: Cells, r: int, c: int)
    requires
        well_formed(g),
        inside(g, r, c),
    ensures
        window_sum(
            g,
            if r > 0 { r - 1 } else { 0 },
            if r + 1 < g.len() { r + 2 } else { g.len() as int },
            if c > 0 { c - 1 } else { 0 },
            if c + 1 < g[0].len() { c + 2 } else { g[0].len() as int },
        ) == cell_at(g, r, c) + live_neighbors(g, r, c),
{
    reveal_with_fuel(span_sum, 4);
    reveal_with_fuel(window_sum, 4);
}

/// Whether a cell with `n_neig` live neighbours is alive in the next
/// generation.
pub fn is_alive(cell: u8, n_neig: u8) -> (alive: bool)
    ensures
        alive == lives_on(cell, n_neig as int),
{
    (cell > 0 && 1 < n_neig && n_neig < 4) || (cell == 0 && n_neig == 3)
}

/// Counts the live neighbours of the cell at row `i`, column `j`: the cells
/// of the surrounding window that lie inside the grid, the cell itself left
/// out.
pub fn sum_neighbors(grid: &Grid, i: usize, j: usize) -> (sum: u8)
    requires
        well_formed(grid.deep_view()),
        inside(grid.deep_view(), i as int, j as int),
    ensures
        sum == live_neighbors(grid.deep_view(), i as int, j as int),
        sum <= 8,
{
    let ghost g = grid.deep_view();
    let min_r_idx: usize = if i > 0 { i - 1 } else { 0 };
    let max_r_idx: usize = if i < grid.len() - 1 { i + 1 } else { grid.len() - 1 };
    let min_c_idx: usize = if j > 0 { j - 1 } else { 0 };
    let max_c_idx: usize = if j < grid[0].len() - 1 { j + 1 } else { grid[0].len() - 1 };
    let mut acc: u8 = 0;
    let mut ii: usize = min_r_idx;
    while ii <= max_r_idx
        invariant
            g == grid.deep_view(),
            well_formed(g),
            min_r_idx <= ii <= max_r_idx + 1,
            max_r_idx < grid.len(),
            max_r_idx - min_r_idx <= 2,
            min_c_idx <= max_c_idx < grid[0].len(),
            max_c_idx - min_c_idx <= 2,
            acc == window_sum(g, min_r_idx as int, ii as int, min_c_idx as int, max_c_idx + 1),
            acc <= 3 * (ii - min_r_idx),
        decreases max_r_idx + 1 - ii,
    {
        let mut row_acc: u8 = 0;
        let mut jj: usize = min_c_idx;
        while jj <= max_c_idx
            invariant
                g == grid.deep_view(),
                well_formed(g),
                ii < grid.len(),
                g[ii as int].len() == g[0].len(),
                min_c_idx <= jj <= max_c_idx + 1,
                max_c_idx < grid[0].len(),
                max_c_idx - min_c_idx <= 2,
                row_acc == span_sum(g, ii as int, min_c_idx as int, jj as int),
                row_acc <= jj - min_c_idx,
            decreases max_c_idx + 1 - jj,
        {
            assert(grid[ii as int][jj as int] == g[ii as int][jj as int]);
            row_acc = row_acc + grid[ii][jj];
            jj = jj + 1;
        }
        acc = acc + row_acc;
        ii = ii + 1;
    }
    proof {
        lemma_clipped_window(g, i as int, j as int);
    }
    acc - grid[i][j]
}

/// Computes the next generation of `grid`. The result is a fresh grid of the
/// same shape; each of its cells follows the rule of Life applied to the
/// cell and its neighbours in `grid`.
pub fn next_generation(grid: &Grid) -> (next: Grid)
    requires
        well_formed(grid.deep_view()),
    ensures
        next.deep_view() == successor(grid.deep_view()),
        height(next.deep_view()) == height(grid.deep_view()),
        width(next.deep_view()) == width(grid.deep_view()),
        well_formed(next.deep_view()),
{
    let ghost g = grid.deep_view();
    let mut next: Grid = Vec::new();
    for i in 0..grid.len()
        invariant
            g == grid.deep_view(),
            well_formed(g),
            next.len() == i,
            forall|r: int| 0 <= r < i ==> (#[trigger] next[r])@ == successor(g)[r],
    {
        let mut row: Vec<Cell> = Vec::new();
        let width: usize = grid[i].len();
        for j in 0..width
            invariant
                g == grid.deep_view(),
                well_formed(g),
                i < grid.len(),
                width == grid[i as int].len(),
                row.len() == j,
                forall|c: int| 0 <= c < j ==> #[trigger] row[c] == successor_cell(g, i as int, c),
        {
            let cell = grid[i][j];
            let sum = sum_neighbors(grid, i, j);
            row.push(if is_alive(cell, sum) { 1 } else { 0 });
        }
        next.push(row);
    }
    assert(next.deep_view() =~~= successor(g));
    next
}

/// Whether every cell of the grid is dead.
pub open spec fn all_dead(g: Cells) -> bool {
    forall|r: int, c: int| inside(g, r, c) ==> #[trigger] g[r][c] == 0
}

/// The grid with a border of dead cells laid round it, one cell wide.
pub open spec fn with_dead_border(g: Cells) -> Cells {
    Seq::new(
        g.len() + 2,
        |r: int| Seq::new(g[0].len() + 2, |c: int| cell_at(g, r - 1, c - 1) as Cell),
    )
}

/// The successor has the shape of the grid it comes from: as many rows, and
/// in each row as many cells. The successor of a well-formed grid is well
/// formed.
pub proof fn lemma_successor_keeps_shape(g: Cells)
    ensures
        height(successor(g)) == height(g),
        width(successor(g)) == width(g),
        forall|r: int| 0 <= r < g.len() ==> (#[trigger] successor(g)[r]).len() == g[r].len(),
        forall|r: int, c: int| inside(g, r, c) <==> inside(successor(g), r, c),
        well_formed(g) ==> well_formed(successor(g)),
{
}

/// The successor is a function of the grid: equal grids have equal
/// successors.
pub proof fn lemma_successor_is_deterministic(a: Cells, b: Cells)
    requires
        a == b,
    ensures
        successor(a) == successor(b),
{
}

/// A grid without a live cell is its own successor.
pub proof fn lemma_all_dead_is_fixed_point(g: Cells)
    requires
        all_dead(g),
    ensures
        successor(g) == g,
        all_dead(successor(g)),
{
    assert(successor(g) =~~= g);
}

/// The successor depends on nothing but the cells inside the grid: two
/// grids of one shape that hold the same cell at every position have the
/// same successor.
pub proof fn lemma_successor_depends_on_inside_only(a: Cells, b: Cells)
    requires
        a.len() == b.len(),
        forall|r: int| 0 <= r < a.len() ==> (#[trigger] a[r]).len() == b[r].len(),
        forall|r: int, c: int| inside(a, r, c) ==> #[trigger] a[r][c] == b[r][c],
    ensures
        successor(a) == successor(b),
{
    assert(a =~~= b);
}

/// The edges are hard: a cell has the successor that it would have if the
/// grid were surrounded by dead cells.
pub proof fn lemma_outside_counts_as_dead(g: Cells, r: int, c: int)
    requires
        well_formed(g),
        inside(g, r, c),
    ensures
        inside(with_dead_border(g), r + 1, c + 1),
        live_neighbors(with_dead_border(g), r + 1, c + 1) == live_neighbors(g, r, c),
        successor_cell(with_dead_border(g), r + 1, c + 1) == successor_cell(g, r, c),
{
}

/// The successor of a cell depends only on the window of three rows and
/// three columns round it, cut off at the edges: two grids that agree on
/// that window, in which positions are inside and in what they hold there,
/// give the cell the same successor.
pub proof fn lemma_successor_is_local(a: Cells, b: Cells, r: int, c: int)
    requires
        inside(a, r, c),
        forall|p: int, q: int|
            r - 1 <= p <= r + 1 && c - 1 <= q <= c + 1 ==> (#[trigger] inside(a, p, q) <==> inside(
                b,
                p,
                q,
            )),
        forall|p: int, q: int|
            r - 1 <= p <= r + 1 && c - 1 <= q <= c + 1 && inside(a, p, q) ==> #[trigger] a[p][q]
                == b[p][q],
    ensures
        successor_cell(a, r, c) == successor_cell(b, r, c),
{
}

/// `1` for a position inside the grid, `0` for one outside.
pub open spec fn position_count(g: Cells, r: int, c: int) -> int {
    if inside(g, r, c) {
        1
    } else {
        0
    }
}

/// The number of positions round `(r, c)` that lie inside the grid.
pub open spec fn neighbor_positions(g: Cells, r: int, c: int) -> int {
    position_count(g, r - 1, c - 1) + position_count(g, r - 1, c) + position_count(g, r - 1, c + 1)
        + position_count(g, r, c - 1) + position_count(g, r, c + 1)
        + position_count(g, r + 1, c - 1) + position_count(g, r + 1, c) + position_count(
        g,
        r + 1,
        c + 1,
    )
}

/// A cell has no more live neighbours than it has neighbours: three in a
/// corner, five on an edge, eight in the interior, and at most two where
/// the grid is a single row or a single column.
pub proof fn lemma_live_neighbors_bound(g: Cells, r: int, c: int)
    requires
        well_formed(g),
        inside(g, r, c),
    ensures
        0 <= live_neighbors(g, r, c) <= neighbor_positions(g, r, c) <= 8,
        g.len() == 1 || g[0].len() == 1 ==> neighbor_positions(g, r, c) <= 2,
        g.len() >= 2 && g[0].len() >= 2 ==> neighbor_positions(g, r, c) == {
            let on_row_edge = r == 0 || r == g.len() - 1;
            let on_column_edge = c == 0 || c == g[0].len() - 1;
            if on_row_edge && on_column_edge {
                3int
            } else if on_row_edge || on_column_edge {
                5int
            } else {
                8int
            }
        },
{
}

/// In a grid of a single row or a single column no cell is born: a cell
/// there has at most two neighbours, and a birth takes three.
pub proof fn lemma_thin_grid_has_no_births(g: Cells)
    requires
        well_formed(g),
        g.len() == 1 || g[0].len() == 1,
    ensures
        forall|r: int, c: int|
            inside(g, r, c) && g[r][c] == 0 ==> #[trigger] successor(g)[r][c] == 0,
{
    assert forall|r: int, c: int| inside(g, r, c) && g[r][c] == 0 implies #[trigger] successor(
        g,
    )[r][c] == 0 by {
        lemma_live_neighbors_bound(g, r, c);
    }
}

/// A grid of a single cell is dead after one generation, whatever it held.
pub proof fn lemma_single_cell_dies(g: Cells)
    requires
        well_formed(g),
        g.len() == 1,
        g[0].len() == 1,
    ensures
        all_dead(successor(g)),
{
}

} // verus!
