//! A dense two-dimensional array with bounds-checked access.
//!
//! A [`matrix::Matrix`] has two extents that are fixed when it is made and
//! one cell for every pair `(x, y)` within them. What an untouched or an
//! emptied cell holds is decided by a policy ([`policy::EmptyPolicy`]):
//! `None` under [`policy::Absent`], the default value of the cell's type
//! under [`policy::DefaultValue`]. Every accessor answers a pair outside the
//! extents with [`error::BoundError`]. Contracts are stated over
//! [`grid::Grid`], the mathematical model of a matrix.

pub mod error;
pub mod grid;
pub mod matrix;
pub mod policy;
