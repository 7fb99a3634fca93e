//! What to do when encountering a directory?

use vstd::prelude::*;

verus! {

/// The action to take when trying to list a file that turns out to be a
/// directory.
///
/// By default, the contents of a directory given on the command line are
/// listed, rather than the directory itself. Listing directories as files
/// shows them side by side with the other files instead. Recursing lists the
/// contents of the directories found inside too, either as separate blocks
/// or, in tree mode, inline beneath each directory.
#[derive(PartialEq, Eq, Debug, Copy, Clone)]
pub enum DirAction {
    /// This directory should be listed along with the regular files, instead
    /// of having its contents queried.
    AsFile,
    /// This directory should not be listed, and should instead be opened and
    /// *its* files listed separately. This is the default behaviour.
    List,
    /// This directory should be listed along with the regular files, and then
    /// its contents should be listed afterward.
    Recurse(RecurseOptions),
}

/// The options that determine how to recurse into a directory.
#[derive(PartialEq, Eq, Debug, Copy, Clone)]
pub struct RecurseOptions {
    /// Whether recursion should be done as a tree or as multiple individual
    /// views of files.
    pub tree: bool,
    /// The maximum number of times that recursion should descend to, if one
    /// is specified.
    pub max_depth: Option<usize>,
}

impl DirAction {
    /// Gets the recurse options, if this dir action has any.
    pub fn recurse_options(self) -> (r: Option<RecurseOptions>)
        ensures
            r == (match self {
                DirAction::Recurse(o) => Some(o),
                _ => None::<RecurseOptions>,
            }),
    {
        match self {
            DirAction::Recurse(o) => Some(o),
            _ => None,
        }
    }

    /// Whether to treat directories as regular files or not.
    pub fn treat_dirs_as_files(self) -> (r: bool)
        ensures
            r == (match self {
                DirAction::AsFile => true,
                DirAction::Recurse(o) => o.tree,
                DirAction::List => false,
            }),
    {
        match self {
            DirAction::AsFile => true,
            DirAction::Recurse(o) => o.tree,
            DirAction::List => false,
        }
    }
}

impl RecurseOptions {
    /// Returns whether a directory of the given depth would be too deep.
    pub fn is_too_deep(self, depth: usize) -> (r: bool)
        ensures
            r == (match self.max_depth {
                None => false,
                Some(d) => d <= depth,
            }),
    {
        match self.max_depth {
            None => false,
            Some(d) => d <= depth,
        }
    }
}

} // verus!
