//! The ways a list of files can be shown, and the settings of each.

use vstd::prelude::*;

pub mod details;
pub mod file_name;
pub mod grid;
pub mod grid_details;
pub mod table;
pub mod time;

verus! {

/// The **view** contains all information about how to format output.
#[derive(PartialEq, Eq, Debug, Copy, Clone)]
pub struct View {
    pub mode: Mode,
    pub width: TerminalWidth,
    pub file_style: file_name::Options,
}

/// The **mode** is the "type" of output.
#[derive(PartialEq, Eq, Debug, Copy, Clone)]
pub enum Mode {
    Grid(grid::Options),
    Details(details::Options),
    GridDetails(grid_details::Options),
    Lines,
}

/// The width of the terminal requested by the user.
#[derive(PartialEq, Eq, Debug, Copy, Clone)]
pub enum TerminalWidth {
    /// The user requested this specific number of columns.
    Given(usize),
    /// Look up the terminal size at runtime.
    Automatic,
}

} // verus!
