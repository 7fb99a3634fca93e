//! The environment variables that change how options are deduced.

use vstd::prelude::*;

verus! {

/// Environment variable used to override the width of the terminal, in
/// characters.
pub const COLUMNS: &'static str = "COLUMNS";

/// Environment variable used to choose the format of timestamps.
pub const TIME_STYLE: &'static str = "TIME_STYLE";

/// Environment variable used to switch on strict argument checking, such as
/// complaining if an argument was specified twice, or if two conflict. Any
/// non-empty value turns strict mode on.
pub const EXA_STRICT: &'static str = "EXA_STRICT";

/// Environment variable used to limit the grid-details view
/// (`--grid --long`) so it's only activated if there's at least the given
/// number of rows of output.
pub const EXA_GRID_ROWS: &'static str = "EXA_GRID_ROWS";

/// The values of the environment variables that options depend on, as raw
/// bytes; `None` when a variable is not set.
#[derive(PartialEq, Eq, Debug, Clone)]
pub struct Vars {
    /// The value of `COLUMNS`.
    pub columns: Option<Vec<u8>>,
    /// The value of `TIME_STYLE`.
    pub time_style: Option<Vec<u8>>,
    /// The value of `EXA_STRICT`.
    pub exa_strict: Option<Vec<u8>>,
    /// The value of `EXA_GRID_ROWS`.
    pub exa_grid_rows: Option<Vec<u8>>,
}

impl Vars {
    /// No variable is set.
    pub fn empty() -> (r: Vars)
        ensures
            r.columns is None,
            r.time_style is None,
            r.exa_strict is None,
            r.exa_grid_rows is None,
    {
        Vars { columns: None, time_style: None, exa_strict: None, exa_grid_rows: None }
    }
}

} // verus!
