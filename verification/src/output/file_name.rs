//! Settings of how file names are shown.

use vstd::prelude::*;

verus! {

/// How file names are shown.
#[derive(PartialEq, Eq, Debug, Copy, Clone)]
pub struct Options {
    /// Whether to append file class characters to file names.
    pub classify: Classify,
}

/// Whether we should append file class characters to file names.
#[derive(PartialEq, Eq, Debug, Copy, Clone)]
pub enum Classify {
    /// Just display the file names, without any characters.
    JustFilenames,
    /// Add a character after the file name depending on what class of file
    /// it is.
    AddFileIndicators,
}

} // verus!
