//! The matrix itself.
//!
//! A cell is addressed by a pair `(x, y)` with `x < x_dim` and `y < y_dim`.
//! Storage is a list of `y_dim` rows of `x_dim` cells each, and the cell at
//! `(x, y)` is entry `x` of stored row `y`. The two line accessors are named
//! after the coordinate they hold fixed: `row(x)` walks the cells
//! `(x, 0), (x, 1), ..` and `col(y)` walks the cells `(0, y), (1, y), ..`, so
//! that `row(x)[y]` and `col(y)[x]` are the same cell.

use vstd::prelude::*;
use crate::error::BoundError;
use crate::grid::{lemma_cells_determine_grid, lemma_filled, lemma_set_twice, Grid};
use crate::policy::{Absent, DefaultValue, EmptyPolicy};

verus! {

/// The contents of stored rows, as sequences.
pub open spec fn rows_of<C>(content: Seq<Vec<C>>) -> Seq<Seq<C>> {
    Seq::new(content.len(), |y: int| content[y]@)
}

/// What a sequence of references points at.
pub open spec fn targets<C>(refs: Seq<&C>) -> Seq<C> {
    Seq::new(refs.len(), |i: int| *refs[i])
}

/// What emptying the cell at `(x, y)` may make of `before` under the policy
/// `P`: the cell holds an empty cell of the policy and nothing else differs.
pub open spec fn emptied<T, P: EmptyPolicy<T>>(
    before: Grid<P::Cell>,
    x: int,
    y: int,
    after: Grid<P::Cell>,
) -> bool {
    &&& P::is_empty(after.cell(x, y))
    &&& after == before.set(x, y, after.cell(x, y))
}

/// Emptying a cell undoes a write to it: the cell then holds an empty cell
/// of the policy, and the grid is what emptying that cell would have made
/// of it had nothing been written.
pub proof fn lemma_emptied_after_set<T, P: EmptyPolicy<T>>(
    grid: Grid<P::Cell>,
    x: int,
    y: int,
    value: P::Cell,
    after: Grid<P::Cell>,
)
    requires
        grid.wf(),
        grid.in_bounds(x, y),
        emptied::<T, P>(grid.set(x, y, value), x, y, after),
    ensures
        P::is_empty(after.cell(x, y)),
        emptied::<T, P>(grid, x, y, after),
        forall|a: int, b: int|
            grid.in_bounds(a, b) && (a != x || b != y) ==> #[trigger] after.cell(a, b) == grid.cell(
                a,
                b,
            ),
{
    lemma_set_twice(grid, x, y, value, after.cell(x, y));
}

/// Under the policy of optional cells, emptying a cell writes `None` to it,
/// wherever a value was written before.
pub proof fn lemma_emptied_absent<T>(grid: Grid<Option<T>>, x: int, y: int, after: Grid<Option<T>>)
    requires
        grid.wf(),
        grid.in_bounds(x, y),
    ensures
        emptied::<T, Absent>(grid, x, y, after) <==> after == grid.set(x, y, None),
{
    if after == grid.set(x, y, None) {
        assert(after.cell(x, y) == None::<T>);
    }
}

/// A dense grid of `x_dim * y_dim` cells whose extents are fixed when it is made.
#[derive(Debug)]
pub struct Matrix<T, P: EmptyPolicy<T> = Absent> {
    content: Vec<Vec<P::Cell>>,
    x_dim: usize,
    y_dim: usize,
}

impl<T, P: EmptyPolicy<T>> View for Matrix<T, P> {
    type V = Grid<P::Cell>;

    closed spec fn view(&self) -> Grid<P::Cell> {
        Grid {
            x_dim: self.x_dim as nat,
            y_dim: self.y_dim as nat,
            rows: Seq::new(
                self.y_dim as nat,
                |y: int| Seq::new(self.x_dim as nat, |x: int| self.content@[y]@[x]),
            ),
        }
    }
}

/// Replaces one cell of a rectangular store and nothing else.
fn store<C>(content: &mut Vec<Vec<C>>, x: usize, y: usize, value: C)
    requires
        y < old(content)@.len(),
        x < old(content)@[y as int]@.len(),
    ensures
        final(content)@.len() == old(content)@.len(),
        final(content)@[y as int]@ == old(content)@[y as int]@.update(x as int, value),
        forall|j: int|
            0 <= j < old(content)@.len() && j != y ==> final(content)@[j] == old(content)@[j],
    no_unwind
{
    content[y][x] = value;
}

impl<T, P: EmptyPolicy<T>> Matrix<T, P> {
    #[verifier::type_invariant]
    spec fn well_formed(&self) -> bool {
        &&& self.content@.len() == self.y_dim
        &&& forall|y: int|
            0 <= y < self.content@.len() ==> (#[trigger] self.content@[y])@.len() == self.x_dim
    }

    /// The view of a matrix is rectangular, whatever the matrix.
    pub proof fn lemma_view_wf(&self)
        ensures
            self@.wf(),
    {
    }

    /// A matrix of the given extents in which every cell is empty.
    fn blank(x_dim: usize, y_dim: usize) -> (m: Self)
        ensures
            m@.wf(),
            m@.x_dim == x_dim,
            m@.y_dim == y_dim,
            forall|x: int, y: int| m@.in_bounds(x, y) ==> P::is_empty(#[trigger] m@.cell(x, y)),
    {
        let mut content: Vec<Vec<P::Cell>> = Vec::new();
        let mut y: usize = 0;
        while y < y_dim
            invariant
                y <= y_dim,
                content@.len() == y,
                forall|j: int| 0 <= j < y ==> (#[trigger] content@[j])@.len() == x_dim,
                forall|j: int, i: int|
                    0 <= j < y && 0 <= i < x_dim ==> P::is_empty(#[trigger] content@[j]@[i]),
            decreases y_dim - y,
        {
            let mut row: Vec<P::Cell> = Vec::new();
            let mut x: usize = 0;
            while x < x_dim
                invariant
                    x <= x_dim,
                    row@.len() == x,
                    forall|i: int| 0 <= i < x ==> P::is_empty(#[trigger] row@[i]),
                decreases x_dim - x,
            {
                row.push(P::empty());
                x += 1;
            }
            content.push(row);
            y += 1;
        }
        Matrix { content, x_dim, y_dim }
    }

    /// Rebuilds a matrix from its extents and its stored rows. The parts must
    /// fit together: `y_dim` rows, each of `x_dim` cells.
    pub fn from_parts(content: Vec<Vec<P::Cell>>, x_dim: usize, y_dim: usize) -> (r: Option<Self>)
        ensures
            match Grid::from_parts(rows_of(content@), x_dim as nat, y_dim as nat) {
                Some(grid) => r is Some && r->Some_0@ == grid,
                None => r is None,
            },
    {
        if content.len() != y_dim {
            return None;
        }
        let mut y: usize = 0;
        while y < y_dim
            invariant
                y <= y_dim,
                content@.len() == y_dim,
                forall|j: int| 0 <= j < y ==> (#[trigger] content@[j])@.len() == x_dim,
            decreases y_dim - y,
        {
            if content[y].len() != x_dim {
                assert(rows_of(content@)[y as int].len() != x_dim);
                return None;
            }
            y += 1;
        }
        let m = Matrix { content, x_dim, y_dim };
        assert(m@.rows =~~= rows_of(content@));
        Some(m)
    }

    /// Takes the matrix apart into its stored rows and its two extents.
    pub fn into_parts(self) -> (parts: (Vec<Vec<P::Cell>>, usize, usize))
        ensures
            rows_of(parts.0@) == self@.rows,
            parts.1 == self@.x_dim,
            parts.2 == self@.y_dim,
    {
        proof {
            use_type_invariant(&self);
            assert(rows_of(self.content@) =~~= self@.rows);
        }
        (self.content, self.x_dim, self.y_dim)
    }

    /// The extent of the first axis.
    pub fn x_dim(&self) -> (n: usize)
        ensures
            n == self@.x_dim,
    {
        self.x_dim
    }

    /// The extent of the second axis.
    pub fn y_dim(&self) -> (n: usize)
        ensures
            n == self@.y_dim,
    {
        self.y_dim
    }

    /// The stored rows: `y_dim` of them, each of `x_dim` cells.
    pub fn content(&self) -> (rows: &Vec<Vec<P::Cell>>)
        ensures
            rows_of(rows@) == self@.rows,
    {
        proof {
            use_type_invariant(self);
            assert(rows_of(self.content@) =~~= self@.rows);
        }
        &self.content
    }

    /// Stores `value` in the cell at `(x, y)` and leaves every other cell as
    /// it was. A pair outside the matrix is rejected and nothing changes.
    pub fn add(&mut self, x: usize, y: usize, value: P::Cell) -> (r: Result<(), BoundError>)
        ensures
            old(self)@.in_bounds(x as int, y as int) ==> r is Ok && final(self)@ == old(self)@.set(
                x as int,
                y as int,
                value,
            ),
            !old(self)@.in_bounds(x as int, y as int) ==> r == Err::<(), BoundError>(
                BoundError::Exceed(x, y),
            ) && *final(self) == *old(self),
    {
        proof {
            use_type_invariant(&*self);
        }
        if x >= self.x_dim || y >= self.y_dim {
            return Err(BoundError::Exceed(x, y));
        }
        store(&mut self.content, x, y, value);
        assert(self@.rows =~~= old(self)@.set(x as int, y as int, value).rows);
        Ok(())
    }

    /// Empties the cell at `(x, y)`: afterwards it holds what the policy
    /// gives for an empty cell, and every other cell is as it was. A pair
    /// outside the matrix is rejected and nothing changes.
    pub fn remove(&mut self, x: usize, y: usize) -> (r: Result<(), BoundError>)
        ensures
            old(self)@.in_bounds(x as int, y as int) ==> r is Ok && emptied::<T, P>(
                old(self)@,
                x as int,
                y as int,
                final(self)@,
            ),
            !old(self)@.in_bounds(x as int, y as int) ==> r == Err::<(), BoundError>(
                BoundError::Exceed(x, y),
            ) && *final(self) == *old(self),
    {
        if x >= self.x_dim || y >= self.y_dim {
            return Err(BoundError::Exceed(x, y));
        }
        self.add(x, y, P::empty())
    }

    /// The cell at `(x, y)`, or the error for a pair outside the matrix.
    pub fn get(&self, x: usize, y: usize) -> (r: Result<&P::Cell, BoundError>)
        ensures
            self@.in_bounds(x as int, y as int) ==> r == Ok::<&P::Cell, BoundError>(
                &self@.cell(x as int, y as int),
            ),
            !self@.in_bounds(x as int, y as int) ==> r == Err::<&P::Cell, BoundError>(
                BoundError::Exceed(x, y),
            ),
    {
        proof {
            use_type_invariant(self);
        }
        if x >= self.x_dim || y >= self.y_dim {
            return Err(BoundError::Exceed(x, y));
        }
        Ok(&self.content[y][x])
    }

    /// The cells `(0, y), (1, y), ..` in that order: one for each value of
    /// the first coordinate. For `y` outside the matrix the error carries
    /// `(0, y)`.
    pub fn col(&self, y: usize) -> (r: Result<Vec<&P::Cell>, BoundError>)
        ensures
            y < self@.y_dim ==> {
                &&& r is Ok
                &&& r->Ok_0@.len() == self@.x_dim
                &&& targets(r->Ok_0@) == self@.col(y as int)
            },
            y >= self@.y_dim ==> r is Err && r->Err_0 == BoundError::Exceed(0, y),
    {
        proof {
            use_type_invariant(self);
        }
        if y >= self.y_dim {
            return Err(BoundError::Exceed(0, y));
        }
        let mut cells: Vec<&P::Cell> = Vec::new();
        let mut x: usize = 0;
        while x < self.x_dim
            invariant
                self.well_formed(),
                y < self.y_dim,
                x <= self.x_dim,
                cells@.len() == x,
                forall|i: int| 0 <= i < x ==> *(#[trigger] cells@[i]) == self@.cell(i, y as int),
            decreases self.x_dim - x,
        {
            cells.push(&self.content[y][x]);
            x += 1;
        }
        assert(targets(cells@) =~= self@.col(y as int));
        Ok(cells)
    }

    /// The cells `(x, 0), (x, 1), ..` in that order: one for each value of
    /// the second coordinate. For `x` outside the matrix the error carries
    /// `(x, 0)`.
    pub fn row(&self, x: usize) -> (r: Result<Vec<&P::Cell>, BoundError>)
        ensures
            x < self@.x_dim ==> {
                &&& r is Ok
                &&& r->Ok_0@.len() == self@.y_dim
                &&& targets(r->Ok_0@) == self@.row(x as int)
            },
            x >= self@.x_dim ==> r is Err && r->Err_0 == BoundError::Exceed(x, 0),
    {
        proof {
            use_type_invariant(self);
        }
        if x >= self.x_dim {
            return Err(BoundError::Exceed(x, 0));
        }
        let mut cells: Vec<&P::Cell> = Vec::new();
        let mut y: usize = 0;
        while y < self.y_dim
            invariant
                self.well_formed(),
                x < self.x_dim,
                y <= self.y_dim,
                cells@.len() == y,
                forall|j: int| 0 <= j < y ==> *(#[trigger] cells@[j]) == self@.cell(x as int, j),
            decreases self.y_dim - y,
        {
            cells.push(&self.content[y][x]);
            y += 1;
        }
        assert(targets(cells@) =~= self@.row(x as int));
        Ok(cells)
    }
}

impl<T> Matrix<T, Absent> {
    /// A matrix of the given extents in which every cell is `None`.
    pub fn new(x_dim: usize, y_dim: usize) -> (m: Self)
        ensures
            m@ == Grid::<Option<T>>::filled(x_dim as nat, y_dim as nat, None),
    {
        let m = Self::blank(x_dim, y_dim);
        proof {
            let full = Grid::<Option<T>>::filled(x_dim as nat, y_dim as nat, None);
            lemma_filled::<Option<T>>(x_dim as nat, y_dim as nat, None);
            assert forall|x: int, y: int| m@.in_bounds(x, y) implies m@.cell(x, y) == full.cell(
                x,
                y,
            ) by {
                assert(Absent::is_empty(m@.cell(x, y)));
            }
            lemma_cells_determine_grid(m@, full);
        }
        m
    }
}

impl<T: Default> Matrix<T, DefaultValue> {
    /// A matrix of the given extents in which every cell holds a value that
    /// `T::default()` returned.
    pub fn default(x_dim: usize, y_dim: usize) -> (m: Self)
        ensures
            m@.wf(),
            m@.x_dim == x_dim,
            m@.y_dim == y_dim,
            forall|x: int, y: int|
                m@.in_bounds(x, y) ==> call_ensures(T::default, (), #[trigger] m@.cell(x, y)),
    {
        Self::blank(x_dim, y_dim)
    }
}

} // verus!
