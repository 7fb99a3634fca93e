//! Whether the help text or the version was asked for.

use vstd::prelude::*;

use crate::options::error::{HelpString, VersionString};
use crate::options::flags;
use crate::options::parser::MatchedFlags;

verus! {

/// The first part of the help text: display, filtering and sorting options.
pub const USAGE_PART1: &'static str = "Usage:
  exa [options] [files...]

META OPTIONS
  -?, --help         show list of command-line options
  -v, --version      show version of exa

DISPLAY OPTIONS
  -1, --oneline      display one entry per line
  -l, --long         display extended file metadata as a table
  -G, --grid         display entries as a grid (default)
  -x, --across       sort the grid across, rather than downwards
  -R, --recurse      recurse into directories
  -T, --tree         recurse into directories as a tree
  -F, --classify     display type indicator by file names
  --colo[u]r=WHEN    when to use terminal colours (always, auto, never)
  --colo[u]r-scale   highlight levels of file sizes distinctly
  --icons            display icons
  --no-icons         don't display icons (always overrides --icons)

FILTERING AND SORTING OPTIONS
  -a, --all                  show hidden and 'dot' files
  -d, --list-dirs            list directories as files; don't list their contents
  -L, --level DEPTH          limit the depth of recursion
  -r, --reverse              reverse the sort order
  -s, --sort SORT_FIELD      which field to sort by
  --group-directories-first  list directories before other files
  -D, --only-dirs            list only directories
  -I, --ignore-glob GLOBS    glob patterns (pipe-separated) of files to ignore";

/// The second part of the help text: sort fields and the long view options.
pub const USAGE_PART2: &'static str = "  \
  Valid sort fields:         name, Name, extension, Extension, size, type,
                             modified, accessed, created, inode, and none.
                             date, time, old, and new all refer to modified.

LONG VIEW OPTIONS
  -b, --binary         list file sizes with binary prefixes
  -B, --bytes          list file sizes in bytes, without any prefixes
  -g, --group          list each file's group
  -h, --header         add a header row to each column
  -H, --links          list each file's number of hard links
  -i, --inode          list each file's inode number
  -m, --modified       use the modified timestamp field
  -n, --numeric        list numeric user and group IDs
  -S, --blocks         show number of file system blocks
  -t, --time FIELD     which timestamp field to list (modified, accessed, created)
  -u, --accessed       use the accessed timestamp field
  -U, --created        use the created timestamp field
  --changed            use the changed timestamp field
  --time-style         how to format timestamps (default, iso, long-iso, full-iso)
  --no-permissions     suppress the permissions field
  --octal-permissions  list each file's permission in octal format
  --no-filesize        suppress the filesize field
  --no-user            suppress the user field
  --no-time            suppress the time field";

/// The help for ignoring what Git ignores.
pub const GIT_FILTER_HELP: &'static str = "  --git-ignore               ignore files mentioned in '.gitignore'";
/// The help for the Git column.
pub const GIT_VIEW_HELP: &'static str = "  --git                list each file's Git status, if tracked or ignored";
/// The help for extended attributes.
pub const EXTENDED_HELP: &'static str = "  -@, --extended       list each file's extended attributes and sizes";

/// The whole help text, with the Git and extended attribute options, and a
/// final newline.
pub open spec fn help_text() -> Seq<char> {
    USAGE_PART1@ + "\n"@ + GIT_FILTER_HELP@ + "\n"@ + USAGE_PART2@ + "\n"@ + GIT_VIEW_HELP@ + "\n"@ + EXTENDED_HELP@
        + "\n"@
}

impl HelpString {
    /// Determines whether to show help, based on the user's command-line
    /// arguments: it is shown when `--help` was given at all. No strict-mode
    /// checking is done here: it's OK to give `--help` more than once.
    pub fn deduce(matches: &MatchedFlags) -> (r: Option<HelpString>)
        ensures
            r is Some <==> matches.model().spec_count(flags::help()) > 0,
    {
        if matches.count(&flags::help()) > 0 {
            Some(HelpString)
        } else {
            None
        }
    }
}

impl HelpString {
    /// The help text, as it is shown.
    pub fn text(&self) -> (r: String)
        ensures
            r@ == help_text(),
    {
        let mut s = String::from_str(USAGE_PART1);
        s.append("\n");
        s.append(GIT_FILTER_HELP);
        s.append("\n");
        s.append(USAGE_PART2);
        s.append("\n");
        s.append(GIT_VIEW_HELP);
        s.append("\n");
        s.append(EXTENDED_HELP);
        s.append("\n");
        s
    }
}

impl VersionString {
    /// Determines whether to show the version, based on the user's
    /// command-line arguments: it is shown when `--version` was given at all.
    pub fn deduce(matches: &MatchedFlags) -> (r: Option<VersionString>)
        ensures
            r is Some <==> matches.model().spec_count(flags::version()) > 0,
    {
        if matches.count(&flags::version()) > 0 {
            Some(VersionString)
        } else {
            None
        }
    }
}

} // verus!
