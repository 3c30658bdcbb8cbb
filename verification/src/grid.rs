//! The grid and its mathematical model.

use vstd::prelude::*;

verus! {

/// One cell of the grid: `0` is dead, `1` is alive.
pub type Cell = u8;

/// A grid of cells, stored row by row.
pub type Grid = Vec<Vec<Cell>>;

/// The model of a grid: a sequence of rows, each a sequence of cells.
pub type Cells = Seq<Seq<Cell>>;

/// Number of rows.
pub open spec fn height(g: Cells) -> nat {
    g.len()
}

/// Number of columns: the length of the first row.
pub open spec fn width(g: Cells) -> nat {
    if g.len() > 0 {
        g[0].len()
    } else {
        0
    }
}

/// Whether `(r, c)` names a cell of the grid.
pub open spec fn inside(g: Cells, r: int, c: int) -> bool {
    0 <= r < g.len() && 0 <= c < g[r].len()
}

/// A grid is well formed when it has at least one row and one column, all
/// rows have the same length, and every cell is `0` or `1`.
pub open spec fn well_formed(g: Cells) -> bool {
    &&& g.len() >= 1
    &&& g[0].len() >= 1
    &&& forall|r: int| 0 <= r < g.len() ==> (#[trigger] g[r]).len() == g[0].len()
    &&& forall|r: int, c: int| inside(g, r, c) ==> #[trigger] g[r][c] <= 1
}

/// Tests whether `grid` is well formed: not empty, rectangular, and made of
/// zeros and ones.
pub fn is_well_formed(grid: &Grid) -> (ok: bool)
    ensures
        ok == well_formed(grid.deep_view()),
{
    let ghost g = grid.deep_view();
    if grid.len() == 0 {
        return false;
    }
    let width: usize = grid[0].len();
    if width == 0 {
        return false;
    }
    for r in 0..grid.len()
        invariant
            g == grid.deep_view(),
            grid.len() >= 1,
            width == grid[0].len(),
            width >= 1,
            forall|p: int| 0 <= p < r ==> (#[trigger] g[p]).len() == width,
            forall|p: int, c: int| 0 <= p < r && 0 <= c < g[p].len() ==> #[trigger] g[p][c] <= 1,
    {
        if grid[r].len() != width {
            assert(g[r as int].len() != g[0].len());
            return false;
        }
        for c in 0..width
            invariant
                g == grid.deep_view(),
                r < grid.len(),
                width == grid[r as int].len(),
                forall|q: int| 0 <= q < c ==> #[trigger] g[r as int][q] <= 1,
        {
            if grid[r][c] > 1 {
                assert(inside(g, r as int, c as int) && g[r as int][c as int] > 1);
                return false;
            }
        }
    }
    true
}

} // verus!
