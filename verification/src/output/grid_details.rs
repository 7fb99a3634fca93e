//! Settings of the grid-details view.

use vstd::prelude::*;

use crate::output::{details, grid};

verus! {

/// A grid of details tables.
#[derive(PartialEq, Eq, Debug, Copy, Clone)]
pub struct Options {
    pub grid: grid::Options,
    pub details: details::Options,
    pub row_threshold: RowThreshold,
}

/// The grid-details view can be configured to revert to just a details view
/// (with one column) if it wouldn't produce enough rows of output.
#[derive(PartialEq, Eq, Debug, Copy, Clone)]
pub enum RowThreshold {
    /// Only use grid-details view if it would result in at least this many
    /// rows of output.
    MinimumRows(usize),
    /// Use the grid-details view no matter what.
    AlwaysGrid,
}

} // verus!
