//! Deducing the `FileFilter` from the command line.

use vstd::prelude::*;
use vstd::string::StringSliceAdditionalSpecFns;

use crate::bytes::is_word;
use crate::fs::dir::DotFilter;
use crate::fs::filter::{glob_errors, valid_globs, FileFilter, GitIgnore, IgnorePatterns, SortCase, SortField};
use crate::options::error::{Misfire, MisfireView};
use crate::options::flags;
use crate::options::parser::{agrees, FlagsModel, MatchedFlags};
use crate::text::{lossy_string, spec_split, split_on, texts_view, utf8_lossy};

verus! {

/// The sort field that a `--sort` value names, if any.
pub open spec fn sort_field_of(w: Seq<u8>) -> Option<SortField> {
    if w == "name".spec_bytes() || w == "filename".spec_bytes() {
        Some(SortField::Name(SortCase::AaBbCc))
    } else if w == "Name".spec_bytes() || w == "Filename".spec_bytes() {
        Some(SortField::Name(SortCase::ABCabc))
    } else if w == ".name".spec_bytes() || w == ".filename".spec_bytes() {
        Some(SortField::NameMixHidden(SortCase::AaBbCc))
    } else if w == ".Name".spec_bytes() || w == ".Filename".spec_bytes() {
        Some(SortField::NameMixHidden(SortCase::ABCabc))
    } else if w == "size".spec_bytes() || w == "filesize".spec_bytes() {
        Some(SortField::Size)
    } else if w == "ext".spec_bytes() || w == "extension".spec_bytes() {
        Some(SortField::Extension(SortCase::AaBbCc))
    } else if w == "Ext".spec_bytes() || w == "Extension".spec_bytes() {
        Some(SortField::Extension(SortCase::ABCabc))
    } else if w == "date".spec_bytes() || w == "time".spec_bytes() || w == "mod".spec_bytes()
        || w == "modified".spec_bytes() || w == "new".spec_bytes() || w == "newest".spec_bytes() {
        Some(SortField::ModifiedDate)
    } else if w == "age".spec_bytes() || w == "old".spec_bytes() || w == "oldest".spec_bytes() {
        Some(SortField::ModifiedAge)
    } else if w == "changed".spec_bytes() {
        Some(SortField::ChangedDate)
    } else if w == "acc".spec_bytes() || w == "accessed".spec_bytes() {
        Some(SortField::AccessedDate)
    } else if w == "cr".spec_bytes() || w == "created".spec_bytes() {
        Some(SortField::CreatedDate)
    } else if w == "inode".spec_bytes() {
        Some(SortField::FileInode)
    } else if w == "type".spec_bytes() {
        Some(SortField::FileType)
    } else if w == "none".spec_bytes() {
        Some(SortField::Unsorted)
    } else {
        None
    }
}

/// The sort field that the command line asks for.
pub open spec fn spec_sort_field(m: FlagsModel) -> Result<SortField, MisfireView> {
    match m.spec_get(flags::sort()) {
        Err(e) => Err(e),
        Ok(None) => Ok(SortField::Name(SortCase::AaBbCc)),
        Ok(Some(w)) => match sort_field_of(w) {
            Some(f) => Ok(f),
            None => Err(MisfireView::BadArgument(flags::sort(), w)),
        },
    }
}

/// The dot filter that the command line asks for.
pub open spec fn spec_dot_filter(m: FlagsModel) -> Result<DotFilter, MisfireView> {
    let count = m.spec_count(flags::all());
    if count == 0 {
        Ok(DotFilter::JustFiles)
    } else if count == 1 {
        Ok(DotFilter::Dotfiles)
    } else if m.spec_count(flags::tree()) > 0 {
        Err(MisfireView::TreeAllAll)
    } else if count >= 3 && m.spec_is_strict() {
        Err(MisfireView::Conflict(flags::all(), flags::all()))
    } else {
        Ok(DotFilter::DotfilesAndDots)
    }
}

/// The patterns to ignore that the command line asks for: the pieces of
/// the `--ignore-glob` value between `|` characters.
pub open spec fn spec_ignore_patterns(m: FlagsModel) -> Result<Seq<Seq<char>>, MisfireView> {
    match m.spec_get(flags::ignore_glob()) {
        Err(e) => Err(e),
        Ok(None) => Ok(Seq::empty()),
        Ok(Some(w)) => {
            let ps = spec_split(utf8_lossy(w), '|');
            let errs = glob_errors(ps, ps.len() as int);
            if errs.len() > 0 {
                Err(MisfireView::FailedGlobPattern(errs.last()))
            } else {
                Ok(valid_globs(ps, ps.len() as int))
            }
        },
    }
}

/// Whether the command line asks to hide files that Git ignores.
pub open spec fn spec_git_ignore(m: FlagsModel) -> Result<GitIgnore, MisfireView> {
    match m.spec_has(flags::git_ignore()) {
        Err(e) => Err(e),
        Ok(b) => Ok(if b { GitIgnore::CheckAndIgnore } else { GitIgnore::Off }),
    }
}

/// A file filter, with its ignore patterns as their sources.
pub struct FileFilterView {
    pub list_dirs_first: bool,
    pub sort_field: SortField,
    pub reverse: bool,
    pub only_dirs: bool,
    pub dot_filter: DotFilter,
    pub ignore_patterns: Seq<Seq<char>>,
    pub git_ignore: GitIgnore,
}

impl View for FileFilter {
    type V = FileFilterView;

    open spec fn view(&self) -> FileFilterView {
        FileFilterView {
            list_dirs_first: self.list_dirs_first,
            sort_field: self.sort_field,
            reverse: self.reverse,
            only_dirs: self.only_dirs,
            dot_filter: self.dot_filter,
            ignore_patterns: self.ignore_patterns@,
            git_ignore: self.git_ignore,
        }
    }
}

/// The file filter that the command line asks for. Its parts are deduced in
/// this order, and the first misfire wins.
pub open spec fn spec_file_filter(m: FlagsModel) -> Result<FileFilterView, MisfireView> {
    match m.spec_has(flags::dirs_first()) {
        Err(e) => Err(e),
        Ok(list_dirs_first) => match m.spec_has(flags::reverse()) {
            Err(e) => Err(e),
            Ok(reverse) => match m.spec_has(flags::only_dirs()) {
                Err(e) => Err(e),
                Ok(only_dirs) => match spec_sort_field(m) {
                    Err(e) => Err(e),
                    Ok(sort_field) => match spec_dot_filter(m) {
                        Err(e) => Err(e),
                        Ok(dot_filter) => match spec_ignore_patterns(m) {
                            Err(e) => Err(e),
                            Ok(ignore_patterns) => match spec_git_ignore(m) {
                                Err(e) => Err(e),
                                Ok(git_ignore) => Ok(FileFilterView {
                                    list_dirs_first,
                                    sort_field,
                                    reverse,
                                    only_dirs,
                                    dot_filter,
                                    ignore_patterns,
                                    git_ignore,
                                }),
                            },
                        },
                    },
                },
            },
        },
    }
}

impl FileFilter {
    /// Determines which of all the file filter options to use.
    pub fn deduce(matches: &MatchedFlags) -> (r: Result<FileFilter, Misfire>)
        ensures
            match spec_file_filter(matches.model()) {
                Ok(v) => r is Ok && r->Ok_0@ == v,
                Err(e) => r is Err && r->Err_0@ == e,
            },
    {
        let list_dirs_first = matches.has(&flags::dirs_first())?;
        let reverse = matches.has(&flags::reverse())?;
        let only_dirs = matches.has(&flags::only_dirs())?;
        let sort_field = SortField::deduce(matches)?;
        let dot_filter = DotFilter::deduce(matches)?;
        let ignore_patterns = IgnorePatterns::deduce(matches)?;
        let git_ignore = GitIgnore::deduce(matches)?;
        Ok(FileFilter { list_dirs_first, sort_field, reverse, only_dirs, dot_filter, ignore_patterns, git_ignore })
    }
}

impl SortField {
    /// Determines which sort field to use based on the `--sort` argument.
    /// Returns the default sort field if none is given, or `Err` if the
    /// value doesn't correspond to a sort field we know about.
    pub fn deduce(matches: &MatchedFlags) -> (r: Result<SortField, Misfire>)
        ensures
            agrees(r, spec_sort_field(matches.model())),
    {
        let word = match matches.get(&flags::sort())? {
            Some(w) => w,
            None => return Ok(SortField::default()),
        };
        let w = word.as_slice();
        if is_word(w, "name") || is_word(w, "filename") {
            Ok(SortField::Name(SortCase::AaBbCc))
        } else if is_word(w, "Name") || is_word(w, "Filename") {
            Ok(SortField::Name(SortCase::ABCabc))
        } else if is_word(w, ".name") || is_word(w, ".filename") {
            Ok(SortField::NameMixHidden(SortCase::AaBbCc))
        } else if is_word(w, ".Name") || is_word(w, ".Filename") {
            Ok(SortField::NameMixHidden(SortCase::ABCabc))
        } else if is_word(w, "size") || is_word(w, "filesize") {
            Ok(SortField::Size)
        } else if is_word(w, "ext") || is_word(w, "extension") {
            Ok(SortField::Extension(SortCase::AaBbCc))
        } else if is_word(w, "Ext") || is_word(w, "Extension") {
            Ok(SortField::Extension(SortCase::ABCabc))
        } else if is_word(w, "date") || is_word(w, "time") || is_word(w, "mod") || is_word(w, "modified")
            || is_word(w, "new") || is_word(w, "newest") {
            // "new" sorts oldest at the top and newest at the bottom; "old"
            // sorts newest at the top and oldest at the bottom.
            Ok(SortField::ModifiedDate)
        } else if is_word(w, "age") || is_word(w, "old") || is_word(w, "oldest") {
            Ok(SortField::ModifiedAge)
        } else if is_word(w, "changed") {
            Ok(SortField::ChangedDate)
        } else if is_word(w, "acc") || is_word(w, "accessed") {
            Ok(SortField::AccessedDate)
        } else if is_word(w, "cr") || is_word(w, "created") {
            Ok(SortField::CreatedDate)
        } else if is_word(w, "inode") {
            Ok(SortField::FileInode)
        } else if is_word(w, "type") {
            Ok(SortField::FileType)
        } else if is_word(w, "none") {
            Ok(SortField::Unsorted)
        } else {
            Err(Misfire::BadArgument(flags::sort(), word))
        }
    }
}

impl DotFilter {
    /// Determines the dot filter based on how many `--all` options were
    /// given: one will show dotfiles, but two will show `.` and `..` too.
    ///
    /// It also checks for the `--tree` option, because of a special case
    /// where `--tree --all --all` won't work: listing the parent directory
    /// in tree mode would loop onto itself!
    pub fn deduce(matches: &MatchedFlags) -> (r: Result<DotFilter, Misfire>)
        ensures
            agrees(r, spec_dot_filter(matches.model())),
    {
        let count = matches.count(&flags::all());
        if count == 0 {
            Ok(DotFilter::JustFiles)
        } else if count == 1 {
            Ok(DotFilter::Dotfiles)
        } else if matches.count(&flags::tree()) > 0 {
            Err(Misfire::TreeAllAll)
        } else if count >= 3 && matches.is_strict() {
            Err(Misfire::Conflict(flags::all(), flags::all()))
        } else {
            Ok(DotFilter::DotfilesAndDots)
        }
    }
}

impl IgnorePatterns {
    /// Determines the set of glob patterns to use based on the
    /// `--ignore-glob` argument's value. This is a list of strings
    /// separated by pipe (`|`) characters, given in any order. When some of
    /// them are not valid patterns, the last such error is returned.
    pub fn deduce(matches: &MatchedFlags) -> (r: Result<IgnorePatterns, Misfire>)
        ensures
            match spec_ignore_patterns(matches.model()) {
                Ok(v) => r is Ok && r->Ok_0@ == v,
                Err(e) => r is Err && r->Err_0@ == e,
            },
    {
        let inputs = match matches.get(&flags::ignore_glob())? {
            None => return Ok(IgnorePatterns::empty()),
            Some(is) => is,
        };
        let text = lossy_string(inputs.as_slice());
        let pieces = split_on(text.as_str(), '|');
        let (patterns, mut errors) = IgnorePatterns::parse_from_iter(&pieces);
        let ghost all_errors = texts_view(errors@);
        match errors.pop() {
            Some(e) => {
                assert(e@ == all_errors.last());
                Err(Misfire::FailedGlobPattern(e))
            },
            None => Ok(patterns),
        }
    }
}

impl GitIgnore {
    /// Determines whether to hide the files that Git ignores.
    pub fn deduce(matches: &MatchedFlags) -> (r: Result<GitIgnore, Misfire>)
        ensures
            agrees(r, spec_git_ignore(matches.model())),
    {
        Ok(if matches.has(&flags::git_ignore())? { GitIgnore::CheckAndIgnore } else { GitIgnore::Off })
    }
}


/// Passing `--all` twice also lists the `.` and `..` directories (three or
/// more times too, unless redundant flags are complained about), except in
/// a tree.
pub proof fn law_all_twice_shows_dots(m: FlagsModel)
    requires
        m.spec_count(flags::all()) >= 2,
        m.spec_count(flags::tree()) == 0,
        m.spec_count(flags::all()) == 2 || !m.spec_is_strict(),
    ensures
        spec_dot_filter(m) == Ok::<DotFilter, MisfireView>(DotFilter::DotfilesAndDots),
{
}

} // verus!
