//! Deducing the `View` from the command line and the environment.

use vstd::prelude::*;
use vstd::string::StringSliceAdditionalSpecFns;
use vstd::utf8::valid_utf8;

use crate::bytes::is_word;
use crate::options::error::{Misfire, MisfireView, NumberSource};
use crate::options::flags;
use crate::options::number::{parse_usize, spec_parse_usize};
use crate::options::parser::{agrees, matches_any, plain_hits, FlagsModel, FlagsView, value_view, Arg, Flag, MatchedFlags, Strictness};
use crate::options::vars::{Vars, COLUMNS, EXA_GRID_ROWS};
use crate::output::file_name::{self, Classify};
use crate::output::grid_details::{self, RowThreshold};
use crate::output::table::{self, Columns, SizeFormat, TimeTypes, UserFormat};
use crate::output::time::TimeFormat;
use crate::output::{self, details, grid, Mode, TerminalWidth};
use crate::text::{is_utf8, lossy_string, utf8_lossy};
use crate::xattr;

verus! {

/// A number read from an environment variable: `None` when the variable is
/// not set or is not valid UTF-8, otherwise the number or why it is not one.
pub open spec fn env_number(v: Option<Seq<u8>>, name: &'static str) -> Option<Result<usize, MisfireView>> {
    match v {
        None => None,
        Some(b) => if !valid_utf8(b) {
            None
        } else {
            match spec_parse_usize(b) {
                Ok(n) => Some(Ok(n)),
                Err(k) => Some(Err(MisfireView::FailedParse(utf8_lossy(b), NumberSource::Env(name), k))),
            }
        },
    }
}

/// The terminal width that the `COLUMNS` variable asks for.
pub open spec fn spec_terminal_width(vars: &Vars) -> Result<TerminalWidth, MisfireView> {
    match env_number(value_view(vars.columns), COLUMNS) {
        None => Ok(TerminalWidth::Automatic),
        Some(Ok(n)) => Ok(TerminalWidth::Given(n)),
        Some(Err(e)) => Err(e),
    }
}

/// The row threshold that the `EXA_GRID_ROWS` variable asks for.
pub open spec fn spec_row_threshold(vars: &Vars) -> Result<RowThreshold, MisfireView> {
    match env_number(value_view(vars.exa_grid_rows), EXA_GRID_ROWS) {
        None => Ok(RowThreshold::AlwaysGrid),
        Some(Ok(n)) => Ok(RowThreshold::MinimumRows(n)),
        Some(Err(e)) => Err(e),
    }
}

/// Reads a number from an environment variable.
fn env_number_exec(v: &Option<Vec<u8>>, name: &'static str) -> (r: Option<Result<usize, Misfire>>)
    ensures
        match env_number(value_view(*v), name) {
            None => r is None,
            Some(s) => r is Some && agrees(r->0, s),
        },
{
    match v {
        None => None,
        Some(b) => {
            if !is_utf8(b.as_slice()) {
                None
            } else {
                match parse_usize(b.as_slice()) {
                    Ok(n) => Some(Ok(n)),
                    Err(k) => Some(Err(Misfire::FailedParse(lossy_string(b.as_slice()), NumberSource::Env(name), k))),
                }
            }
        },
    }
}

impl TerminalWidth {
    /// Determines the terminal width from the `COLUMNS` variable. When it is
    /// not set, or is not valid UTF-8, the width is found at runtime.
    pub fn deduce(vars: &Vars) -> (r: Result<TerminalWidth, Misfire>)
        ensures
            agrees(r, spec_terminal_width(vars)),
    {
        match env_number_exec(&vars.columns, COLUMNS) {
            None => Ok(TerminalWidth::Automatic),
            Some(Ok(n)) => Ok(TerminalWidth::Given(n)),
            Some(Err(e)) => Err(e),
        }
    }
}

impl RowThreshold {
    /// Determines the row threshold from the `EXA_GRID_ROWS` variable.
    pub fn deduce(vars: &Vars) -> (r: Result<RowThreshold, Misfire>)
        ensures
            agrees(r, spec_row_threshold(vars)),
    {
        match env_number_exec(&vars.exa_grid_rows, EXA_GRID_ROWS) {
            None => Ok(RowThreshold::AlwaysGrid),
            Some(Ok(n)) => Ok(RowThreshold::MinimumRows(n)),
            Some(Err(e)) => Err(e),
        }
    }
}

/// The grid options that the command line asks for.
pub open spec fn spec_grid(m: FlagsModel) -> Result<grid::Options, MisfireView> {
    match m.spec_has(flags::across()) {
        Err(e) => Err(e),
        Ok(across) => Ok(grid::Options { across }),
    }
}

/// Deduces the grid options.
pub fn deduce_grid(matches: &MatchedFlags) -> (r: Result<grid::Options, Misfire>)
    ensures
        agrees(r, spec_grid(matches.model())),
{
    Ok(grid::Options { across: matches.has(&flags::across())? })
}

/// The time format named by a word.
pub open spec fn time_format_of(w: Seq<u8>) -> Result<TimeFormat, MisfireView> {
    if w == "default".spec_bytes() {
        Ok(TimeFormat::DefaultFormat)
    } else if w == "iso".spec_bytes() {
        Ok(TimeFormat::ISOFormat)
    } else if w == "long-iso".spec_bytes() {
        Ok(TimeFormat::LongISO)
    } else if w == "full-iso".spec_bytes() {
        Ok(TimeFormat::FullISO)
    } else {
        Err(MisfireView::BadArgument(flags::time_style(), w))
    }
}

/// The time format that the command line, or else the `TIME_STYLE`
/// variable when it is set and not empty, asks for.
pub open spec fn spec_time_format(m: FlagsModel, vars: &Vars) -> Result<TimeFormat, MisfireView> {
    match m.spec_get(flags::time_style()) {
        Err(e) => Err(e),
        Ok(Some(w)) => time_format_of(w),
        Ok(None) => match value_view(vars.time_style) {
            Some(t) => if t.len() > 0 { time_format_of(t) } else { Ok(TimeFormat::DefaultFormat) },
            None => Ok(TimeFormat::DefaultFormat),
        },
    }
}

fn time_format_from_word(w: Vec<u8>) -> (r: Result<TimeFormat, Misfire>)
    ensures
        agrees(r, time_format_of(w@)),
{
    let s = w.as_slice();
    if is_word(s, "default") {
        Ok(TimeFormat::DefaultFormat)
    } else if is_word(s, "iso") {
        Ok(TimeFormat::ISOFormat)
    } else if is_word(s, "long-iso") {
        Ok(TimeFormat::LongISO)
    } else if is_word(s, "full-iso") {
        Ok(TimeFormat::FullISO)
    } else {
        Err(Misfire::BadArgument(flags::time_style(), w))
    }
}

impl TimeFormat {
    /// Determine how time should be formatted in timestamp columns.
    pub fn deduce(matches: &MatchedFlags, vars: &Vars) -> (r: Result<TimeFormat, Misfire>)
        ensures
            agrees(r, spec_time_format(matches.model(), vars)),
    {
        match matches.get(&flags::time_style())? {
            Some(w) => time_format_from_word(w),
            None => match &vars.time_style {
                Some(t) => {
                    if t.len() > 0 {
                        time_format_from_word(t.clone())
                    } else {
                        Ok(TimeFormat::DefaultFormat)
                    }
                },
                None => Ok(TimeFormat::DefaultFormat),
            },
        }
    }
}

/// The size format that the command line asks for.
pub open spec fn spec_size_format(m: FlagsModel) -> Result<SizeFormat, MisfireView> {
    match m.spec_has_where(seq![flags::binary(), flags::bytes()]) {
        Err(e) => Err(e),
        Ok(Some(f)) => Ok(if f.spec_matches(flags::binary()) {
            SizeFormat::BinaryBytes
        } else if f.spec_matches(flags::bytes()) {
            SizeFormat::JustBytes
        } else {
            SizeFormat::DecimalBytes
        }),
        Ok(None) => Ok(SizeFormat::DecimalBytes),
    }
}

impl SizeFormat {
    /// Determine which file size to use in the file size column based on
    /// the user's options. The default is decimal prefixes; `--binary` and
    /// `--bytes` choose the others, and the last one given wins.
    pub fn deduce(matches: &MatchedFlags) -> (r: Result<SizeFormat, Misfire>)
        ensures
            agrees(r, spec_size_format(matches.model())),
    {
        let args = vec![flags::binary(), flags::bytes()];
        assert(args@ =~= seq![flags::binary(), flags::bytes()]);
        let flag = matches.has_where(&args)?;
        Ok(match flag {
            Some(f) => {
                if f.matches(&flags::binary()) {
                    SizeFormat::BinaryBytes
                } else if f.matches(&flags::bytes()) {
                    SizeFormat::JustBytes
                } else {
                    SizeFormat::DecimalBytes
                }
            },
            None => SizeFormat::DecimalBytes,
        })
    }
}

/// The user format that the command line asks for.
pub open spec fn spec_user_format(m: FlagsModel) -> Result<UserFormat, MisfireView> {
    match m.spec_has(flags::numeric()) {
        Err(e) => Err(e),
        Ok(b) => Ok(if b { UserFormat::Numeric } else { UserFormat::Name }),
    }
}

impl UserFormat {
    /// Whether to show user and group IDs as numbers or as names.
    pub fn deduce(matches: &MatchedFlags) -> (r: Result<UserFormat, Misfire>)
        ensures
            agrees(r, spec_user_format(matches.model())),
    {
        let flag = matches.has(&flags::numeric())?;
        Ok(if flag { UserFormat::Numeric } else { UserFormat::Name })
    }
}

/// The time types named by a `--time` value, given which time flags were
/// also given.
pub open spec fn time_types_of(w: Seq<u8>, modified: bool, changed: bool, accessed: bool, created: bool) -> Result<TimeTypes, MisfireView> {
    if modified {
        Err(MisfireView::Useless(flags::modified(), true, flags::time()))
    } else if changed {
        Err(MisfireView::Useless(flags::changed(), true, flags::time()))
    } else if accessed {
        Err(MisfireView::Useless(flags::accessed(), true, flags::time()))
    } else if created {
        Err(MisfireView::Useless(flags::created(), true, flags::time()))
    } else if w == "mod".spec_bytes() || w == "modified".spec_bytes() {
        Ok(TimeTypes { modified: true, changed: false, accessed: false, created: false })
    } else if w == "ch".spec_bytes() || w == "changed".spec_bytes() {
        Ok(TimeTypes { modified: false, changed: true, accessed: false, created: false })
    } else if w == "acc".spec_bytes() || w == "accessed".spec_bytes() {
        Ok(TimeTypes { modified: false, changed: false, accessed: true, created: false })
    } else if w == "cr".spec_bytes() || w == "created".spec_bytes() {
        Ok(TimeTypes { modified: false, changed: false, accessed: false, created: true })
    } else {
        Err(MisfireView::BadArgument(flags::time(), w))
    }
}

/// The time columns that the command line asks for.
pub open spec fn spec_time_types(m: FlagsModel) -> Result<TimeTypes, MisfireView> {
    match m.spec_get(flags::time()) {
        Err(e) => Err(e),
        Ok(word) => match m.spec_has(flags::modified()) {
            Err(e) => Err(e),
            Ok(modified) => match m.spec_has(flags::changed()) {
                Err(e) => Err(e),
                Ok(changed) => match m.spec_has(flags::accessed()) {
                    Err(e) => Err(e),
                    Ok(accessed) => match m.spec_has(flags::created()) {
                        Err(e) => Err(e),
                        Ok(created) => match m.spec_has(flags::no_time()) {
                            Err(e) => Err(e),
                            Ok(no_time) => if no_time {
                                Ok(TimeTypes { modified: false, changed: false, accessed: false, created: false })
                            } else {
                                match word {
                                    Some(w) => time_types_of(w, modified, changed, accessed, created),
                                    None => if modified || changed || accessed || created {
                                        Ok(TimeTypes { modified, changed, accessed, created })
                                    } else {
                                        Ok(TimeTypes { modified: true, changed: false, accessed: false, created: false })
                                    },
                                }
                            },
                        },
                    },
                },
            },
        },
    }
}

impl TimeTypes {
    /// Determine which of a file's time fields should be displayed for it
    /// based on the user's options.
    ///
    /// There are two separate ways to pick which fields to show: with a
    /// flag (such as `--modified`) or with a parameter (such as
    /// `--time=modified`). An error is signaled if both ways are used.
    ///
    /// It's valid to show more than one column by passing in more than one
    /// option, but passing *no* options means that the user just wants to
    /// see the default set. `--no-time` hides them all.
    pub fn deduce(matches: &MatchedFlags) -> (r: Result<TimeTypes, Misfire>)
        ensures
            agrees(r, spec_time_types(matches.model())),
    {
        let possible_word = matches.get(&flags::time())?;
        let modified = matches.has(&flags::modified())?;
        let changed = matches.has(&flags::changed())?;
        let accessed = matches.has(&flags::accessed())?;
        let created = matches.has(&flags::created())?;
        let no_time = matches.has(&flags::no_time())?;

        if no_time {
            Ok(TimeTypes { modified: false, changed: false, accessed: false, created: false })
        } else if let Some(word) = possible_word {
            let w = word.as_slice();
            if modified {
                Err(Misfire::Useless(flags::modified(), true, flags::time()))
            } else if changed {
                Err(Misfire::Useless(flags::changed(), true, flags::time()))
            } else if accessed {
                Err(Misfire::Useless(flags::accessed(), true, flags::time()))
            } else if created {
                Err(Misfire::Useless(flags::created(), true, flags::time()))
            } else if is_word(w, "mod") || is_word(w, "modified") {
                Ok(TimeTypes { modified: true, changed: false, accessed: false, created: false })
            } else if is_word(w, "ch") || is_word(w, "changed") {
                Ok(TimeTypes { modified: false, changed: true, accessed: false, created: false })
            } else if is_word(w, "acc") || is_word(w, "accessed") {
                Ok(TimeTypes { modified: false, changed: false, accessed: true, created: false })
            } else if is_word(w, "cr") || is_word(w, "created") {
                Ok(TimeTypes { modified: false, changed: false, accessed: false, created: true })
            } else {
                Err(Misfire::BadArgument(flags::time(), word))
            }
        } else if modified || changed || accessed || created {
            Ok(TimeTypes { modified, changed, accessed, created })
        } else {
            Ok(TimeTypes::default())
        }
    }
}

/// The columns that the command line asks for.
pub open spec fn spec_columns(m: FlagsModel) -> Result<Columns, MisfireView> {
    match spec_time_types(m) {
        Err(e) => Err(e),
        Ok(time_types) => match m.spec_has(flags::git()) {
            Err(e) => Err(e),
            Ok(git) => match m.spec_has(flags::blocks()) {
                Err(e) => Err(e),
                Ok(blocks) => match m.spec_has(flags::group()) {
                    Err(e) => Err(e),
                    Ok(group) => match m.spec_has(flags::inode()) {
                        Err(e) => Err(e),
                        Ok(inode) => match m.spec_has(flags::links()) {
                            Err(e) => Err(e),
                            Ok(links) => match m.spec_has(flags::octal()) {
                                Err(e) => Err(e),
                                Ok(octal) => match m.spec_has(flags::no_permissions()) {
                                    Err(e) => Err(e),
                                    Ok(no_permissions) => match m.spec_has(flags::no_filesize()) {
                                        Err(e) => Err(e),
                                        Ok(no_filesize) => match m.spec_has(flags::no_user()) {
                                            Err(e) => Err(e),
                                            Ok(no_user) => Ok(Columns {
                                                time_types,
                                                inode,
                                                links,
                                                blocks,
                                                group,
                                                git,
                                                octal,
                                                permissions: !no_permissions,
                                                filesize: !no_filesize,
                                                user: !no_user,
                                            }),
                                        },
                                    },
                                },
                            },
                        },
                    },
                },
            },
        },
    }
}

impl Columns {
    /// Determines which columns of the table to show.
    pub fn deduce(matches: &MatchedFlags) -> (r: Result<Columns, Misfire>)
        ensures
            agrees(r, spec_columns(matches.model())),
    {
        let time_types = TimeTypes::deduce(matches)?;
        let git = matches.has(&flags::git())?;

        let blocks = matches.has(&flags::blocks())?;
        let group = matches.has(&flags::group())?;
        let inode = matches.has(&flags::inode())?;
        let links = matches.has(&flags::links())?;
        let octal = matches.has(&flags::octal())?;

        let permissions = !matches.has(&flags::no_permissions())?;
        let filesize = !matches.has(&flags::no_filesize())?;
        let user = !matches.has(&flags::no_user())?;

        Ok(Columns { time_types, inode, links, blocks, group, git, octal, permissions, filesize, user })
    }
}

/// The table options that the command line and the environment ask for.
pub open spec fn spec_table(m: FlagsModel, vars: &Vars) -> Result<table::Options, MisfireView> {
    match spec_time_format(m, vars) {
        Err(e) => Err(e),
        Ok(time_format) => match spec_size_format(m) {
            Err(e) => Err(e),
            Ok(size_format) => match spec_user_format(m) {
                Err(e) => Err(e),
                Ok(user_format) => match spec_columns(m) {
                    Err(e) => Err(e),
                    Ok(columns) => Ok(table::Options { size_format, time_format, user_format, columns }),
                },
            },
        },
    }
}

/// Deduces the table options.
pub fn deduce_table(matches: &MatchedFlags, vars: &Vars) -> (r: Result<table::Options, Misfire>)
    ensures
        agrees(r, spec_table(matches.model(), vars)),
{
    let time_format = TimeFormat::deduce(matches, vars)?;
    let size_format = SizeFormat::deduce(matches)?;
    let user_format = UserFormat::deduce(matches)?;
    let columns = Columns::deduce(matches)?;
    Ok(table::Options { size_format, time_format, user_format, columns })
}

/// Whether the `--extended` column is shown.
pub open spec fn spec_xattr(m: FlagsModel) -> Result<bool, MisfireView> {
    if xattr::ENABLED { m.spec_has(flags::extended()) } else { Ok(false) }
}

/// The details options of a tree view.
pub open spec fn spec_details_tree(m: FlagsModel) -> Result<details::Options, MisfireView> {
    match spec_xattr(m) {
        Err(e) => Err(e),
        Ok(x) => Ok(details::Options { table: None, header: false, xattr: x }),
    }
}

/// The strict-mode check of the details view: `--across` without `--grid`,
/// and `--oneline`, do nothing with `--long`.
pub open spec fn spec_long_strict(m: FlagsModel) -> Result<(), MisfireView> {
    if !m.spec_is_strict() {
        Ok(())
    } else {
        match m.spec_has(flags::across()) {
            Err(e) => Err(e),
            Ok(across) => {
                let useless_across = if across {
                    match m.spec_has(flags::grid()) {
                        Err(e) => Err(e),
                        Ok(g) => Ok(!g),
                    }
                } else {
                    Ok(false)
                };
                match useless_across {
                    Err(e) => Err(e),
                    Ok(true) => Err(MisfireView::Useless(flags::across(), true, flags::long())),
                    Ok(false) => match m.spec_has(flags::one_line()) {
                        Err(e) => Err(e),
                        Ok(true) => Err(MisfireView::Useless(flags::one_line(), true, flags::long())),
                        Ok(false) => Ok(()),
                    },
                }
            },
        }
    }
}

/// The details options of a long view.
pub open spec fn spec_details_long(m: FlagsModel, vars: &Vars) -> Result<details::Options, MisfireView> {
    match spec_long_strict(m) {
        Err(e) => Err(e),
        Ok(_) => match spec_table(m, vars) {
            Err(e) => Err(e),
            Ok(table) => match m.spec_has(flags::header()) {
                Err(e) => Err(e),
                Ok(header) => match spec_xattr(m) {
                    Err(e) => Err(e),
                    Ok(x) => Ok(details::Options { table: Some(table), header, xattr: x }),
                },
            },
        },
    }
}

/// Deduces the details options of a tree view: no table, no header.
pub fn deduce_tree(matches: &MatchedFlags) -> (r: Result<details::Options, Misfire>)
    ensures
        agrees(r, spec_details_tree(matches.model())),
{
    let xattr = xattr::ENABLED && matches.has(&flags::extended())?;
    Ok(details::Options { table: None, header: false, xattr })
}

/// Deduces the details options of a long view.
pub fn deduce_long(matches: &MatchedFlags, vars: &Vars) -> (r: Result<details::Options, Misfire>)
    ensures
        agrees(r, spec_details_long(matches.model(), vars)),
{
    if matches.is_strict() {
        if matches.has(&flags::across())? && !matches.has(&flags::grid())? {
            return Err(Misfire::Useless(flags::across(), true, flags::long()));
        } else if matches.has(&flags::one_line())? {
            return Err(Misfire::Useless(flags::one_line(), true, flags::long()));
        }
    }
    let table = deduce_table(matches, vars)?;
    let header = matches.has(&flags::header())?;
    let xattr = xattr::ENABLED && matches.has(&flags::extended())?;
    Ok(details::Options { table: Some(table), header, xattr })
}

/// The options that only do something in the details view.
pub open spec fn long_only_args() -> Seq<Arg> {
    seq![
        flags::binary(), flags::bytes(), flags::inode(), flags::links(), flags::header(),
        flags::blocks(), flags::time(), flags::group(), flags::numeric()
    ]
}

/// The first of `opts[i..]` that was given, as a `Useless` misfire.
pub open spec fn first_useless(m: FlagsModel, opts: Seq<Arg>, i: int) -> Result<(), MisfireView>
    decreases opts.len() - i,
{
    if i < 0 || i >= opts.len() {
        Ok(())
    } else {
        match m.spec_has(opts[i]) {
            Err(e) => Err(e),
            Ok(true) => Err(MisfireView::Useless(opts[i], false, flags::long())),
            Ok(false) => first_useless(m, opts, i + 1),
        }
    }
}

/// The strict-mode check made when the details view is not used: options
/// that only work with `--long` are useless.
pub open spec fn spec_strict_check(m: FlagsModel) -> Result<(), MisfireView> {
    if !m.spec_is_strict() {
        Ok(())
    } else {
        match first_useless(m, long_only_args(), 0) {
            Err(e) => Err(e),
            Ok(_) => match m.spec_has(flags::git()) {
                Err(e) => Err(e),
                Ok(true) => Err(MisfireView::Useless(flags::git(), false, flags::long())),
                Ok(false) => match m.spec_has(flags::level()) {
                    Err(e) => Err(e),
                    Ok(false) => Ok(()),
                    Ok(true) => match m.spec_has(flags::recurse()) {
                        Err(e) => Err(e),
                        Ok(true) => Ok(()),
                        Ok(false) => match m.spec_has(flags::tree()) {
                            Err(e) => Err(e),
                            Ok(true) => Ok(()),
                            Ok(false) => Err(MisfireView::Useless2(flags::level(), flags::recurse(), flags::tree())),
                        },
                    },
                },
            },
        }
    }
}

/// Checks, in strict mode, for options that do nothing without `--long`.
pub fn strict_check_long_flags(matches: &MatchedFlags) -> (r: Result<(), Misfire>)
    ensures
        agrees(r, spec_strict_check(matches.model())),
{
    if matches.is_strict() {
        let options = vec![
            flags::binary(), flags::bytes(), flags::inode(), flags::links(), flags::header(),
            flags::blocks(), flags::time(), flags::group(), flags::numeric()
        ];
        assert(options@ =~= long_only_args());
        let mut i: usize = 0;
        while i < options.len()
            invariant
                options@ == long_only_args(),
                0 <= i <= options@.len(),
                matches.model().spec_is_strict(),
                spec_strict_check(matches.model()) == (match first_useless(matches.model(), options@, i as int) {
                    Err(e) => Err(e),
                    Ok(_) => match matches.model().spec_has(flags::git()) {
                        Err(e) => Err(e),
                        Ok(true) => Err(MisfireView::Useless(flags::git(), false, flags::long())),
                        Ok(false) => match matches.model().spec_has(flags::level()) {
                            Err(e) => Err(e),
                            Ok(false) => Ok(()),
                            Ok(true) => match matches.model().spec_has(flags::recurse()) {
                                Err(e) => Err(e),
                                Ok(true) => Ok(()),
                                Ok(false) => match matches.model().spec_has(flags::tree()) {
                                    Err(e) => Err(e),
                                    Ok(true) => Ok(()),
                                    Ok(false) => Err(MisfireView::Useless2(flags::level(), flags::recurse(), flags::tree())),
                                },
                            },
                        },
                    },
                }),
            decreases options@.len() - i,
        {
            if matches.has(&options[i])? {
                return Err(Misfire::Useless(options[i], false, flags::long()));
            }
            i = i + 1;
        }

        if matches.has(&flags::git())? {
            return Err(Misfire::Useless(flags::git(), false, flags::long()));
        } else if matches.has(&flags::level())? && !matches.has(&flags::recurse())? && !matches.has(&flags::tree())? {
            return Err(Misfire::Useless2(flags::level(), flags::recurse(), flags::tree()));
        }
    }
    Ok(())
}

/// Whether the view is a details view, given the flag that decided it: the
/// flag is `--long`, or it is `--tree` or `--grid` and `--long` was given.
pub open spec fn long_wins(m: FlagsModel, f: Flag) -> Result<bool, MisfireView> {
    if f.spec_matches(flags::long()) {
        Ok(true)
    } else {
        let by_tree = if f.spec_matches(flags::tree()) { m.spec_has(flags::long()) } else { Ok(false) };
        match by_tree {
            Err(e) => Err(e),
            Ok(true) => Ok(true),
            Ok(false) => if f.spec_matches(flags::grid()) { m.spec_has(flags::long()) } else { Ok(false) },
        }
    }
}

/// The flags that choose a view.
pub open spec fn view_args() -> Seq<Arg> {
    seq![flags::long(), flags::one_line(), flags::grid(), flags::tree()]
}

/// The mode of a details view, which becomes a grid of details when
/// `--grid` was given after `--tree`.
pub open spec fn spec_long_mode(m: FlagsModel, vars: &Vars) -> Result<Mode, MisfireView> {
    match m.spec_has(flags::long()) {
        Err(e) => Err(e),
        Ok(_) => match spec_details_long(m, vars) {
            Err(e) => Err(e),
            Ok(details) => {
                let last = m.spec_has_where_any(seq![flags::grid(), flags::tree()]);
                if last is Some && last->0.spec_matches(flags::grid()) {
                    match m.spec_has(flags::grid()) {
                        Err(e) => Err(e),
                        Ok(_) => match spec_grid(m) {
                            Err(e) => Err(e),
                            Ok(grid) => match spec_row_threshold(vars) {
                                Err(e) => Err(e),
                                Ok(row_threshold) => Ok(Mode::GridDetails(grid_details::Options { grid, details, row_threshold })),
                            },
                        },
                    }
                } else {
                    Ok(Mode::Details(details))
                }
            },
        },
    }
}

/// The mode that the command line and the environment ask for.
pub open spec fn spec_mode(m: FlagsModel, vars: &Vars) -> Result<Mode, MisfireView> {
    match m.spec_has_where_any(view_args()) {
        None => match spec_strict_check(m) {
            Err(e) => Err(e),
            Ok(_) => match spec_grid(m) {
                Err(e) => Err(e),
                Ok(g) => Ok(Mode::Grid(g)),
            },
        },
        Some(f) => match long_wins(m, f) {
            Err(e) => Err(e),
            Ok(true) => spec_long_mode(m, vars),
            Ok(false) => match spec_strict_check(m) {
                Err(e) => Err(e),
                Ok(_) => if f.spec_matches(flags::tree()) {
                    match m.spec_has(flags::tree()) {
                        Err(e) => Err(e),
                        Ok(_) => match spec_details_tree(m) {
                            Err(e) => Err(e),
                            Ok(d) => Ok(Mode::Details(d)),
                        },
                    }
                } else if f.spec_matches(flags::one_line()) {
                    match m.spec_has(flags::one_line()) {
                        Err(e) => Err(e),
                        Ok(_) => Ok(Mode::Lines),
                    }
                } else {
                    match spec_grid(m) {
                        Err(e) => Err(e),
                        Ok(g) => Ok(Mode::Grid(g)),
                    }
                },
            },
        },
    }
}

fn long_mode(matches: &MatchedFlags, vars: &Vars) -> (r: Result<Mode, Misfire>)
    ensures
        agrees(r, spec_long_mode(matches.model(), vars)),
{
    let _ = matches.has(&flags::long())?;
    let details = deduce_long(matches, vars)?;

    let args = vec![flags::grid(), flags::tree()];
    assert(args@ =~= seq![flags::grid(), flags::tree()]);
    let flag = matches.has_where_any(&args);

    let is_grid = match flag {
        Some(f) => f.matches(&flags::grid()),
        None => false,
    };
    if is_grid {
        let _ = matches.has(&flags::grid())?;
        let grid = deduce_grid(matches)?;
        let row_threshold = RowThreshold::deduce(vars)?;
        Ok(Mode::GridDetails(grid_details::Options { grid, details, row_threshold }))
    } else {
        // the --tree case is handled by the DirAction parser later
        Ok(Mode::Details(details))
    }
}

impl Mode {
    /// Determine which viewing mode to use based on the user's options.
    ///
    /// As with the other options, arguments are scanned right-to-left and the
    /// first flag found is matched, so `--oneline --long` will pick a
    /// details view, and `--long --oneline` will pick the lines view.
    ///
    /// This is complicated a little by the fact that `--grid` and `--tree`
    /// can also combine with `--long`.
    pub fn deduce(matches: &MatchedFlags, vars: &Vars) -> (r: Result<Mode, Misfire>)
        ensures
            agrees(r, spec_mode(matches.model(), vars)),
    {
        let args = vec![flags::long(), flags::one_line(), flags::grid(), flags::tree()];
        assert(args@ =~= view_args());
        let flag = matches.has_where_any(&args);

        let flag = match flag {
            Some(f) => f,
            None => {
                strict_check_long_flags(matches)?;
                let grid = deduce_grid(matches)?;
                return Ok(Mode::Grid(grid));
            },
        };

        let long = if flag.matches(&flags::long()) {
            true
        } else {
            let by_tree = if flag.matches(&flags::tree()) { matches.has(&flags::long())? } else { false };
            if by_tree {
                true
            } else if flag.matches(&flags::grid()) {
                matches.has(&flags::long())?
            } else {
                false
            }
        };

        if long {
            return long_mode(matches, vars);
        }

        strict_check_long_flags(matches)?;

        if flag.matches(&flags::tree()) {
            let _ = matches.has(&flags::tree())?;
            let details = deduce_tree(matches)?;
            return Ok(Mode::Details(details));
        }

        if flag.matches(&flags::one_line()) {
            let _ = matches.has(&flags::one_line())?;
            return Ok(Mode::Lines);
        }

        let grid = deduce_grid(matches)?;
        Ok(Mode::Grid(grid))
    }
}

/// How file names are shown, as the command line asks.
pub open spec fn spec_file_style(m: FlagsModel) -> Result<file_name::Options, MisfireView> {
    match m.spec_has(flags::classify()) {
        Err(e) => Err(e),
        Ok(b) => Ok(file_name::Options {
            classify: if b { Classify::AddFileIndicators } else { Classify::JustFilenames },
        }),
    }
}

impl Classify {
    /// Whether to add a file class character after each file name.
    pub fn deduce(matches: &MatchedFlags) -> (r: Result<Classify, Misfire>)
        ensures
            agrees(r, match spec_file_style(matches.model()) {
                Ok(o) => Ok(o.classify),
                Err(e) => Err(e),
            }),
    {
        let flagged = matches.has(&flags::classify())?;
        if flagged { Ok(Classify::AddFileIndicators) } else { Ok(Classify::JustFilenames) }
    }
}

impl file_name::Options {
    /// Determines how file names are shown.
    pub fn deduce(matches: &MatchedFlags) -> (r: Result<file_name::Options, Misfire>)
        ensures
            agrees(r, spec_file_style(matches.model())),
    {
        let classify = Classify::deduce(matches)?;
        Ok(file_name::Options { classify })
    }
}

/// The view that the command line and the environment ask for.
pub open spec fn spec_view(m: FlagsModel, vars: &Vars) -> Result<output::View, MisfireView> {
    match spec_mode(m, vars) {
        Err(e) => Err(e),
        Ok(mode) => match spec_terminal_width(vars) {
            Err(e) => Err(e),
            Ok(width) => match spec_file_style(m) {
                Err(e) => Err(e),
                Ok(file_style) => Ok(output::View { mode, width, file_style }),
            },
        },
    }
}

impl output::View {
    /// Determines the whole view: the mode, the terminal width, and how file
    /// names are shown.
    pub fn deduce(matches: &MatchedFlags, vars: &Vars) -> (r: Result<output::View, Misfire>)
        ensures
            agrees(r, spec_view(matches.model(), vars)),
    {
        let mode = Mode::deduce(matches, vars)?;
        let width = TerminalWidth::deduce(vars)?;
        let file_style = file_name::Options::deduce(matches)?;
        Ok(output::View { mode, width, file_style })
    }
}


/// When redundant flags are allowed, the last of `--long`, `--oneline`,
/// `--grid` and `--tree` picks the view: a command line whose last such flag
/// is `--oneline` gives the lines view.
pub proof fn law_last_oneline_gives_lines(m: FlagsModel, vars: &Vars)
    requires
        !m.spec_is_strict(),
        m.spec_has_where_any(view_args()) matches Some(f) && f.spec_matches(flags::one_line()),
    ensures
        spec_mode(m, vars) == Ok::<Mode, MisfireView>(Mode::Lines),
{
    reveal_strlit("oneline");
    reveal_strlit("long");
    reveal_strlit("tree");
    reveal_strlit("grid");
    broadcast use vstd::string::is_ascii_spec_bytes;
    assert(vstd::string::is_ascii("oneline"));
    assert(vstd::string::is_ascii("long"));
    assert(vstd::string::is_ascii("tree"));
    assert(vstd::string::is_ascii("grid"));
    assert("oneline".spec_bytes().len() == 7);
    assert("long".spec_bytes().len() == 4);
    assert("tree".spec_bytes()[0] != "grid".spec_bytes()[0]);
    let f = m.spec_has_where_any(view_args())->0;
    assert(!f.spec_matches(flags::long()));
    assert(!f.spec_matches(flags::tree()));
    assert(!f.spec_matches(flags::grid()));
}

/// When redundant flags are allowed, a command line whose last view flag is
/// `--long` gives a details view (or a grid of details, with `--grid` after
/// `--tree`): the mode is the one that the details options make.
pub proof fn law_last_long_gives_details(m: FlagsModel, vars: &Vars)
    requires
        !m.spec_is_strict(),
        m.spec_has_where_any(view_args()) matches Some(f) && f.spec_matches(flags::long()),
    ensures
        spec_mode(m, vars) == spec_long_mode(m, vars),
{
}

/// `--binary` and `--bytes` choose the size format, and the last of them
/// given wins, whatever came before: a command line ending in `--binary`
/// (or `-b`) shows sizes with binary prefixes, one ending in `--bytes` (or
/// `-B`) shows plain bytes, and one with neither shows decimal prefixes.
pub proof fn law_last_size_flag_wins(m: FlagsModel, s: Strictness)
    requires
        !m.spec_is_strict(),
    ensures
        spec_size_format(FlagsModel { flags: m.flags.push((Flag::Long("binary"), None)), ..m })
            == Ok::<SizeFormat, MisfireView>(SizeFormat::BinaryBytes),
        spec_size_format(FlagsModel { flags: m.flags.push((Flag::Short(98u8), None)), ..m })
            == Ok::<SizeFormat, MisfireView>(SizeFormat::BinaryBytes),
        spec_size_format(FlagsModel { flags: m.flags.push((Flag::Long("bytes"), None)), ..m })
            == Ok::<SizeFormat, MisfireView>(SizeFormat::JustBytes),
        spec_size_format(FlagsModel { flags: m.flags.push((Flag::Short(66u8), None)), ..m })
            == Ok::<SizeFormat, MisfireView>(SizeFormat::JustBytes),
        spec_size_format(FlagsModel { flags: seq![(Flag::Long("binary"), None)], strictness: s })
            == Ok::<SizeFormat, MisfireView>(SizeFormat::BinaryBytes),
        spec_size_format(FlagsModel { flags: seq![(Flag::Long("bytes"), None)], strictness: s })
            == Ok::<SizeFormat, MisfireView>(SizeFormat::JustBytes),
        spec_size_format(FlagsModel { flags: Seq::empty(), strictness: s })
            == Ok::<SizeFormat, MisfireView>(SizeFormat::DecimalBytes),
{
    reveal_strlit("binary");
    reveal_strlit("bytes");
    broadcast use vstd::string::is_ascii_spec_bytes;
    assert(vstd::string::is_ascii("binary"));
    assert(vstd::string::is_ascii("bytes"));
    assert("binary".spec_bytes().len() == 6);
    assert("bytes".spec_bytes().len() == 5);
    let args = seq![flags::binary(), flags::bytes()];
    assert(args[0] == flags::binary() && args[1] == flags::bytes());
    assert(Flag::Long("binary").spec_matches(flags::binary()));
    assert(!Flag::Long("binary").spec_matches(flags::bytes()));
    assert(Flag::Long("bytes").spec_matches(flags::bytes()));
    assert(!Flag::Long("bytes").spec_matches(flags::binary()));
    assert(matches_any(Flag::Long("binary"), args));
    assert(matches_any(Flag::Long("bytes"), args));
    assert(matches_any(Flag::Short(98u8), args));
    assert(matches_any(Flag::Short(66u8), args));
    let n = m.flags.len() as int;
    let f1 = m.flags.push((Flag::Long("binary"), None));
    let f2 = m.flags.push((Flag::Short(98u8), None));
    let f3 = m.flags.push((Flag::Long("bytes"), None));
    let f4 = m.flags.push((Flag::Short(66u8), None));
    assert(f1[n] == (Flag::Long("binary"), None::<Seq<u8>>));
    assert(f2[n] == (Flag::Short(98u8), None::<Seq<u8>>));
    assert(f3[n] == (Flag::Long("bytes"), None::<Seq<u8>>));
    assert(f4[n] == (Flag::Short(66u8), None::<Seq<u8>>));
    let g1: FlagsView = seq![(Flag::Long("binary"), None)];
    let g2: FlagsView = seq![(Flag::Long("bytes"), None)];
    reveal_with_fuel(plain_hits, 2);
    assert(plain_hits(g1, args, 1) =~= seq![Flag::Long("binary")]);
    assert(plain_hits(g2, args, 1) =~= seq![Flag::Long("bytes")]);
    assert(plain_hits(Seq::<(Flag, Option<Seq<u8>>)>::empty(), args, 0) =~= Seq::<Flag>::empty());
}

} // verus!
