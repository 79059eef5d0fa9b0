//! The mathematical model of a matrix: its two extents and its rows of cells.

use vstd::prelude::*;

verus! {

/// A rectangular arrangement of cells. The cell at `(x, y)` is the `x`-th
/// entry of the `y`-th stored row.
pub ghost struct Grid<C> {
    /// Extent of the first axis: the number of cells in each stored row.
    pub x_dim: nat,
    /// Extent of the second axis: the number of stored rows.
    pub y_dim: nat,
    /// The stored rows, in increasing `y`.
    pub rows: Seq<Seq<C>>,
}

impl<C> Grid<C> {
    /// There are `y_dim` stored rows and each has `x_dim` cells.
    pub open spec fn wf(self) -> bool {
        &&& self.rows.len() == self.y_dim
        &&& forall|y: int| 0 <= y < self.y_dim ==> (#[trigger] self.rows[y]).len() == self.x_dim
    }

    /// Whether `(x, y)` addresses a cell.
    pub open spec fn in_bounds(self, x: int, y: int) -> bool {
        0 <= x < self.x_dim && 0 <= y < self.y_dim
    }

    /// The cell at `(x, y)`.
    pub open spec fn cell(self, x: int, y: int) -> C
        recommends
            self.in_bounds(x, y),
    {
        self.rows[y][x]
    }

    /// The grid with the cell at `(x, y)` replaced by `value`.
    pub open spec fn set(self, x: int, y: int, value: C) -> Grid<C>
        recommends
            self.in_bounds(x, y),
    {
        Grid { rows: self.rows.update(y, self.rows[y].update(x, value)), ..self }
    }

    /// The grid of the given extents in which every cell is `value`.
    pub open spec fn filled(x_dim: nat, y_dim: nat, value: C) -> Grid<C> {
        Grid {
            x_dim,
            y_dim,
            rows: Seq::new(y_dim, |y: int| Seq::new(x_dim, |x: int| value)),
        }
    }

    /// The grid made of the given extents and rows, where these fit together.
    pub open spec fn from_parts(rows: Seq<Seq<C>>, x_dim: nat, y_dim: nat) -> Option<Grid<C>> {
        let grid = Grid { x_dim, y_dim, rows };
        if grid.wf() {
            Some(grid)
        } else {
            None
        }
    }

    /// The cells whose first coordinate is `x`, in increasing `y`.
    pub open spec fn row(self, x: int) -> Seq<C>
        recommends
            0 <= x < self.x_dim,
    {
        Seq::new(self.y_dim, |y: int| self.cell(x, y))
    }

    /// The cells whose second coordinate is `y`, in increasing `x`.
    pub open spec fn col(self, y: int) -> Seq<C>
        recommends
            0 <= y < self.y_dim,
    {
        Seq::new(self.x_dim, |x: int| self.cell(x, y))
    }
}

/// A grid filled with one value is rectangular, has the extents asked for,
/// and holds that value in every cell.
pub proof fn lemma_filled<C>(x_dim: nat, y_dim: nat, value: C)
    ensures
        Grid::filled(x_dim, y_dim, value).wf(),
        Grid::filled(x_dim, y_dim, value).x_dim == x_dim,
        Grid::filled(x_dim, y_dim, value).y_dim == y_dim,
        Grid::filled(x_dim, y_dim, value).rows.len() == y_dim,
        forall|y: int|
            0 <= y < y_dim ==> (#[trigger] Grid::filled(x_dim, y_dim, value).rows[y]).len() == x_dim,
        forall|x: int, y: int|
            Grid::filled(x_dim, y_dim, value).in_bounds(x, y) ==> #[trigger] Grid::filled(
                x_dim,
                y_dim,
                value,
            ).cell(x, y) == value,
{
}

/// Writing a cell and reading it back gives what was written; the extents
/// stay as they were, the grid stays rectangular, and every other cell keeps
/// its value.
pub proof fn lemma_set_then_cell<C>(grid: Grid<C>, x: int, y: int, value: C)
    requires
        grid.wf(),
        grid.in_bounds(x, y),
    ensures
        grid.set(x, y, value).wf(),
        grid.set(x, y, value).x_dim == grid.x_dim,
        grid.set(x, y, value).y_dim == grid.y_dim,
        grid.set(x, y, value).cell(x, y) == value,
        forall|a: int, b: int|
            grid.in_bounds(a, b) && (a != x || b != y) ==> #[trigger] grid.set(x, y, value).cell(a, b)
                == grid.cell(a, b),
{
}

/// A second write to a cell leaves no trace of the first.
pub proof fn lemma_set_twice<C>(grid: Grid<C>, x: int, y: int, first: C, second: C)
    requires
        grid.wf(),
        grid.in_bounds(x, y),
    ensures
        grid.set(x, y, first).set(x, y, second) == grid.set(x, y, second),
{
    assert(grid.set(x, y, first).set(x, y, second).rows =~~= grid.set(x, y, second).rows);
}

/// The two line accessors cross at the cell that both coordinates name:
/// entry `y` of `row(x)` and entry `x` of `col(y)` are the cell at `(x, y)`.
/// A `row` has one entry for each `y`, a `col` one for each `x`, and `col(y)`
/// is the stored row `y`.
pub proof fn lemma_row_col_cross<C>(grid: Grid<C>, x: int, y: int)
    requires
        grid.wf(),
        grid.in_bounds(x, y),
    ensures
        grid.row(x).len() == grid.y_dim,
        grid.col(y).len() == grid.x_dim,
        grid.row(x)[y] == grid.cell(x, y),
        grid.col(y)[x] == grid.cell(x, y),
        grid.col(y) == grid.rows[y],
{
    assert(grid.col(y) =~= grid.rows[y]);
}

/// Two rectangular grids of the same extents that agree on every cell are
/// the same grid.
pub proof fn lemma_cells_determine_grid<C>(a: Grid<C>, b: Grid<C>)
    requires
        a.wf(),
        b.wf(),
        a.x_dim == b.x_dim,
        a.y_dim == b.y_dim,
        forall|x: int, y: int| a.in_bounds(x, y) ==> a.cell(x, y) == b.cell(x, y),
    ensures
        a == b,
{
    assert forall|y: int| 0 <= y < a.y_dim implies #[trigger] a.rows[y] =~= b.rows[y] by {
        assert forall|x: int| 0 <= x < a.x_dim implies a.rows[y][x] == b.rows[y][x] by {
            assert(a.in_bounds(x, y));
            assert(a.cell(x, y) == b.cell(x, y));
        }
    }
    assert(a.rows =~= b.rows);
}

/// Taking a rectangular grid apart and putting the parts together again
/// gives the same grid back.
pub proof fn lemma_parts_round_trip<C>(grid: Grid<C>)
    requires
        grid.wf(),
    ensures
        Grid::from_parts(grid.rows, grid.x_dim, grid.y_dim) == Some(grid),
{
}

} // verus!
