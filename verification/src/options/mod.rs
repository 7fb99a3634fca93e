//! Parsing command-line strings into a checked set of options.
//!
//! Options given later on the command line override earlier ones, so that a
//! shell alias can set defaults that the user can still override:
//! `--sort=Name --sort=size` sorts by size. Setting the `EXA_STRICT`
//! variable to anything non-empty turns on strict mode, in which giving an
//! option twice, or giving two options that conflict or do nothing
//! together, is a misfire instead.

pub mod dir_action;
pub mod error;
pub mod filter;
pub mod flags;
pub mod help;
pub mod message;
pub mod number;
pub mod parser;
pub mod style;
pub mod vars;
pub mod view;

use vstd::prelude::*;

use crate::fs::dir_action::DirAction;
use crate::fs::filter::FileFilter;
use crate::options::dir_action::spec_dir_action;
use crate::options::error::{HelpString, Misfire, MisfireView, VersionString};
use crate::options::filter::{spec_file_filter, FileFilterView};
use crate::options::flags::{all_args, spec_all_args};
use crate::options::parser::{count_hits, parse, spec_parse, strings_view, FlagsModel, FlagsView, MatchedFlags, ParseFailure, Strictness};
use crate::options::vars::Vars;
use crate::options::view::spec_view;
use crate::output::{self, Mode};

verus! {

/// These **options** represent a parsed, error-checked version of the
/// user's command-line options.
#[derive(PartialEq, Debug)]
pub struct Options {
    /// The action to perform when encountering a directory rather than a
    /// regular file.
    pub dir_action: DirAction,
    /// How to sort and filter files before outputting them.
    pub filter: FileFilter,
    /// The type of output to use (lines, grid, or details).
    pub view: output::View,
}

/// A set of options, with the file filter's patterns as their sources.
pub struct OptionsView {
    pub dir_action: DirAction,
    pub filter: FileFilterView,
    pub view: output::View,
}

impl View for Options {
    type V = OptionsView;

    open spec fn view(&self) -> OptionsView {
        OptionsView { dir_action: self.dir_action, filter: self.filter@, view: self.view }
    }
}

/// The options that a parsed command line asks for: the view first, then
/// the directory action (a tree only in the details view), then the filter.
pub open spec fn spec_deduce(m: FlagsModel, vars: &Vars) -> Result<OptionsView, MisfireView> {
    match spec_view(m, vars) {
        Err(e) => Err(e),
        Ok(view) => match spec_dir_action(m, view.mode is Details) {
            Err(e) => Err(e),
            Ok(dir_action) => match spec_file_filter(m) {
                Err(e) => Err(e),
                Ok(filter) => Ok(OptionsView { dir_action, filter, view }),
            },
        },
    }
}

/// The strictness that the `EXA_STRICT` variable asks for: strict when it
/// is set and not empty.
pub open spec fn spec_strictness(vars: &Vars) -> Strictness {
    match vars.exa_strict {
        Some(v) => if v@.len() > 0 {
            Strictness::ComplainAboutRedundantArguments
        } else {
            Strictness::UseLastArguments
        },
        None => Strictness::UseLastArguments,
    }
}

/// What the whole command line, with the environment, gives: the options
/// and the free arguments, or a misfire. A command line that cannot be
/// parsed is an `InvalidOptions` misfire; then `--help`, then `--version`,
/// given anywhere, win over everything else.
pub open spec fn spec_options(inputs: Seq<Seq<u8>>, vars: &Vars) -> Result<(OptionsView, Seq<Seq<u8>>), MisfireView> {
    match spec_parse(spec_all_args(), inputs) {
        Err(e) => Err(MisfireView::InvalidOptions(e)),
        Ok((flags, frees)) => {
            let m = FlagsModel { flags, strictness: spec_strictness(vars) };
            if m.spec_count(flags::help()) > 0 {
                Err(MisfireView::Help)
            } else if m.spec_count(flags::version()) > 0 {
                Err(MisfireView::Version)
            } else {
                match spec_deduce(m, vars) {
                    Err(e) => Err(e),
                    Ok(o) => Ok((o, frees)),
                }
            }
        },
    }
}

/// The strictness that the `EXA_STRICT` variable asks for.
pub fn strictness(vars: &Vars) -> (r: Strictness)
    ensures
        r == spec_strictness(vars),
{
    match &vars.exa_strict {
        None => Strictness::UseLastArguments,
        Some(t) => {
            if t.len() == 0 {
                Strictness::UseLastArguments
            } else {
                Strictness::ComplainAboutRedundantArguments
            }
        },
    }
}

impl Options {
    /// Parse the given command-line strings into an `Options` struct and a
    /// list of free file names, using the environment variables for extra
    /// options.
    pub fn parse(args: &Vec<Vec<u8>>, vars: &Vars) -> (r: Result<(Options, Vec<Vec<u8>>), Misfire>)
        ensures
            match spec_options(strings_view(args@), vars) {
                Ok((o, frees)) => r is Ok && r->Ok_0.0@ == o && strings_view(r->Ok_0.1@) == frees,
                Err(e) => r is Err && r->Err_0@ == e,
            },
    {
        let strictness = strictness(vars);

        let all = all_args();
        let matches = match parse(&all, args) {
            Ok(m) => m,
            Err(e) => return Err(Misfire::InvalidOptions(e)),
        };
        let frees = matches.frees;
        let flags = MatchedFlags { flags: matches.flags, strictness };

        if let Some(help) = HelpString::deduce(&flags) {
            return Err(Misfire::Help(help));
        }
        if let Some(version) = VersionString::deduce(&flags) {
            return Err(Misfire::Version(version));
        }

        let options = Options::deduce(&flags, vars)?;
        Ok((options, frees))
    }

    /// Determines the complete set of options based on the given
    /// command-line arguments, after they've been parsed.
    pub fn deduce(matches: &MatchedFlags, vars: &Vars) -> (r: Result<Options, Misfire>)
        ensures
            match spec_deduce(matches.model(), vars) {
                Ok(o) => r is Ok && r->Ok_0@ == o,
                Err(e) => r is Err && r->Err_0@ == e,
            },
    {
        let view = output::View::deduce(matches, vars)?;
        let can_tree = match view.mode {
            Mode::Details(_) => true,
            _ => false,
        };
        let dir_action = DirAction::deduce(matches, can_tree)?;
        let filter = FileFilter::deduce(matches)?;
        Ok(Options { dir_action, filter, view })
    }

    /// Whether the view specified in this set of options includes a Git
    /// status column. It's only worth trying to discover a repository if the
    /// results will end up being displayed.
    pub fn should_scan_for_git(&self) -> (r: bool)
        ensures
            r == (match self.view.mode {
                Mode::Details(d) => d.table is Some && d.table->0.columns.git,
                Mode::GridDetails(g) => g.details.table is Some && g.details.table->0.columns.git,
                _ => false,
            }),
    {
        match self.view.mode {
            Mode::Details(d) => match d.table {
                Some(table) => table.columns.should_scan_for_git(),
                None => false,
            },
            Mode::GridDetails(g) => match g.details.table {
                Some(table) => table.columns.should_scan_for_git(),
                None => false,
            },
            _ => false,
        }
    }
}


/// Asking for help, anywhere on a command line that can be parsed, gets
/// the help text, whatever else was asked for.
pub proof fn law_help_wins(inputs: Seq<Seq<u8>>, vars: &Vars, flags: FlagsView, frees: Seq<Seq<u8>>)
    requires
        spec_parse(spec_all_args(), inputs) == Ok::<(FlagsView, Seq<Seq<u8>>), ParseFailure>((flags, frees)),
        count_hits(flags, flags::help(), flags.len() as int) > 0,
    ensures
        spec_options(inputs, vars) == Err::<(OptionsView, Seq<Seq<u8>>), MisfireView>(MisfireView::Help),
{
}

} // verus!
