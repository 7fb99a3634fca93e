//! Deducing the `DirAction` from the command line.

use vstd::prelude::*;

use crate::fs::dir_action::{DirAction, RecurseOptions};
use crate::options::error::{Misfire, MisfireView, NumberSource};
use crate::options::flags;
use crate::options::number::{parse_usize, spec_parse_usize};
use crate::options::parser::{agrees, FlagsModel, MatchedFlags};
use crate::text::{lossy_string, utf8_lossy};

verus! {

/// The recursion options given by `--level`, for a tree or not.
pub open spec fn spec_recurse_options(m: FlagsModel, tree: bool) -> Result<RecurseOptions, MisfireView> {
    match m.spec_get(flags::level()) {
        Err(e) => Err(e),
        Ok(None) => Ok(RecurseOptions { tree, max_depth: None }),
        Ok(Some(w)) => match spec_parse_usize(w) {
            Ok(n) => Ok(RecurseOptions { tree, max_depth: Some(n) }),
            Err(k) => Err(MisfireView::FailedParse(utf8_lossy(w), NumberSource::Arg(flags::level()), k)),
        },
    }
}

/// The action on directories that the command line asks for, given whether
/// the view can show a tree.
pub open spec fn spec_dir_action(m: FlagsModel, can_tree: bool) -> Result<DirAction, MisfireView> {
    match m.spec_has(flags::recurse()) {
        Err(e) => Err(e),
        Ok(rec) => match m.spec_has(flags::list_dirs()) {
            Err(e) => Err(e),
            Ok(as_file) => match m.spec_has(flags::tree()) {
                Err(e) => Err(e),
                Ok(tr) => {
                    if m.spec_is_strict() && !rec && !tr && m.spec_count(flags::level()) > 0 {
                        Err(MisfireView::Useless2(flags::level(), flags::recurse(), flags::tree()))
                    } else if m.spec_is_strict() && rec && as_file {
                        Err(MisfireView::Conflict(flags::recurse(), flags::list_dirs()))
                    } else if m.spec_is_strict() && tr && as_file {
                        Err(MisfireView::Conflict(flags::tree(), flags::list_dirs()))
                    } else if tr && can_tree {
                        match spec_recurse_options(m, true) {
                            Ok(o) => Ok(DirAction::Recurse(o)),
                            Err(e) => Err(e),
                        }
                    } else if rec {
                        match spec_recurse_options(m, false) {
                            Ok(o) => Ok(DirAction::Recurse(o)),
                            Err(e) => Err(e),
                        }
                    } else if as_file {
                        Ok(DirAction::AsFile)
                    } else {
                        Ok(DirAction::List)
                    }
                },
            },
        },
    }
}

impl DirAction {
    /// Determine which action to perform when trying to list a directory.
    /// There are three possible actions, and they overlap somewhat: the
    /// `--tree` flag is another form of recursion, so those two are allowed
    /// to both be present, but the `--list-dirs` flag is used separately.
    /// A tree is only made when `can_tree` says the view can show one.
    pub fn deduce(matches: &MatchedFlags, can_tree: bool) -> (r: Result<DirAction, Misfire>)
        ensures
            agrees(r, spec_dir_action(matches.model(), can_tree)),
    {
        let recurse = matches.has(&flags::recurse())?;
        let as_file = matches.has(&flags::list_dirs())?;
        let tree = matches.has(&flags::tree())?;

        if matches.is_strict() {
            // Early check for --level when it wouldn't do anything
            if !recurse && !tree && matches.count(&flags::level()) > 0 {
                return Err(Misfire::Useless2(flags::level(), flags::recurse(), flags::tree()));
            } else if recurse && as_file {
                return Err(Misfire::Conflict(flags::recurse(), flags::list_dirs()));
            } else if tree && as_file {
                return Err(Misfire::Conflict(flags::tree(), flags::list_dirs()));
            }
        }

        if tree && can_tree {
            Ok(DirAction::Recurse(RecurseOptions::deduce(matches, true)?))
        } else if recurse {
            Ok(DirAction::Recurse(RecurseOptions::deduce(matches, false)?))
        } else if as_file {
            Ok(DirAction::AsFile)
        } else {
            Ok(DirAction::List)
        }
    }
}

impl RecurseOptions {
    /// Determine which files should be recursed into, based on the `--level`
    /// flag's value, and whether the `--tree` flag was passed. The maximum
    /// level should be a number, and this fails with an `Err` if it isn't.
    pub fn deduce(matches: &MatchedFlags, tree: bool) -> (r: Result<RecurseOptions, Misfire>)
        ensures
            agrees(r, spec_recurse_options(matches.model(), tree)),
    {
        match matches.get(&flags::level())? {
            Some(w) => match parse_usize(w.as_slice()) {
                Ok(n) => Ok(RecurseOptions { tree, max_depth: Some(n) }),
                Err(k) => Err(Misfire::FailedParse(lossy_string(w.as_slice()), NumberSource::Arg(flags::level()), k)),
            },
            None => Ok(RecurseOptions { tree, max_depth: None }),
        }
    }
}

} // verus!
