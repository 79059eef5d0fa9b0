//! What a cell holds before anything is written to it, and after removal.

use vstd::prelude::*;

verus! {

/// A strategy that fixes the type of a cell over values of `T` and the
/// content of a cell that holds nothing.
pub trait EmptyPolicy<T> {
    /// What one cell of the matrix stores.
    type Cell;

    /// Whether `cell` is a cell that holds nothing under this policy.
    spec fn is_empty(cell: Self::Cell) -> bool;

    /// Makes a cell that holds nothing.
    fn empty() -> (cell: Self::Cell)
        ensures
            Self::is_empty(cell),
    ;
}

/// Cells are optional: an empty cell is `None`.
#[derive(Debug, Clone, Copy, PartialEq, Eq)]
pub struct Absent;

/// Cells always hold a value: an empty cell holds what `T::default()` returns.
#[derive(Debug, Clone, Copy, PartialEq, Eq)]
pub struct DefaultValue;

impl<T> EmptyPolicy<T> for Absent {
    type Cell = Option<T>;

    open spec fn is_empty(cell: Option<T>) -> bool {
        cell is None
    }

    fn empty() -> (cell: Option<T>) {
        None
    }
}

impl<T: Default> EmptyPolicy<T> for DefaultValue {
    type Cell = T;

    open spec fn is_empty(cell: T) -> bool {
        call_ensures(T::default, (), cell)
    }

    fn empty() -> (cell: T) {
        T::default()
    }
}

} // verus!
