//! Settings of the details view.

use vstd::prelude::*;

use crate::output::table;

verus! {

/// With the **Details** view, the output gets formatted into columns, with
/// each `Column` object showing some piece of information about the file,
/// such as its size, or its permissions.
#[derive(PartialEq, Eq, Debug, Copy, Clone)]
pub struct Options {
    /// Options specific to drawing a table. A tree view shows no table.
    pub table: Option<table::Options>,
    /// Whether to show a header line or not.
    pub header: bool,
    /// Whether to show each file's extended attributes.
    pub xattr: bool,
}

} // verus!
