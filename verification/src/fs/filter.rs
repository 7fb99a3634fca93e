//! Filtering and sorting the list of files before displaying them.

use vstd::prelude::*;
use vstd::string::StrSliceExecFns;

use crate::fs::dir::DotFilter;
use crate::fs::fields::Type;
use crate::fs::order::SortKey;
use crate::globs::{glob_check, glob_error, glob_match, glob_matches};
use crate::text::texts_view;

verus! {

/// The **file filter** processes a list of files before displaying them to
/// the user, by removing files they don't want to see, and putting the list
/// in the desired order.
#[derive(PartialEq, Debug)]
pub struct FileFilter {
    /// Whether directories should be listed first, and other types of file
    /// second.
    pub list_dirs_first: bool,
    /// The metadata field to sort by.
    pub sort_field: SortField,
    /// Whether to reverse the sorting order.
    pub reverse: bool,
    /// Whether to only show directories.
    pub only_dirs: bool,
    /// Which invisible "dot" files to include when listing a directory.
    pub dot_filter: DotFilter,
    /// Glob patterns to ignore. Any file name that matches *any* of these
    /// patterns won't be displayed in the list.
    pub ignore_patterns: IgnorePatterns,
    /// Whether to ignore Git-ignored patterns.
    pub git_ignore: GitIgnore,
}

/// User-supplied field to sort by.
#[derive(PartialEq, Eq, Debug, Copy, Clone)]
pub enum SortField {
    /// Don't apply any sorting.
    Unsorted,
    /// The file name. This is the default sorting.
    Name(SortCase),
    /// The file's extension, with extensionless files being listed first.
    Extension(SortCase),
    /// The file's size, in bytes.
    Size,
    /// The file's inode.
    FileInode,
    /// The time the file was modified (the "mtime").
    ModifiedDate,
    /// The time the file was accessed (the "atime").
    AccessedDate,
    /// The time the file's metadata changed (the "ctime").
    ChangedDate,
    /// The time the file was created (the "btime").
    CreatedDate,
    /// The type of the file: directories, links, pipes, regular files, etc.
    FileType,
    /// The time the file was modified, sorted backwards: newest first.
    ModifiedAge,
    /// The file's name, ignoring a leading `.`.
    NameMixHidden(SortCase),
}

/// Whether a field should be sorted case-sensitively or case-insensitively.
#[derive(PartialEq, Eq, Debug, Copy, Clone)]
pub enum SortCase {
    /// Sort files case-sensitively with uppercase first, with 'A' coming
    /// before 'a'.
    ABCabc,
    /// Sort files case-insensitively, with 'A' being equal to 'a'.
    AaBbCc,
}

impl SortField {
    /// The sort field used when none is given: names, ignoring case.
    pub fn default() -> (r: SortField)
        ensures
            r == SortField::Name(SortCase::AaBbCc),
    {
        SortField::Name(SortCase::AaBbCc)
    }

    /// The name without its leading `.`, if it has one.
    pub fn strip_dot(n: &str) -> (r: &str)
        ensures
            r@ == (if n@.len() > 0 && n@[0] == '.' { n@.subrange(1, n@.len() as int) } else { n@ }),
    {
        let len = n.unicode_len();
        if len > 0 && n.get_char(0) == '.' {
            n.substring_char(1, len)
        } else {
            n
        }
    }
}

/// Whether to ignore or display files that Git would ignore.
#[derive(PartialEq, Eq, Debug, Copy, Clone)]
pub enum GitIgnore {
    /// Ignore files that Git would ignore.
    CheckAndIgnore,
    /// Display files, even if Git would ignore them.
    Off,
}

/// The patterns among `ps[..n]` that compile, in order.
pub open spec fn valid_globs(ps: Seq<Seq<char>>, n: int) -> Seq<Seq<char>>
    decreases n,
{
    if n <= 0 {
        Seq::empty()
    } else if glob_error(ps[n - 1]) is None {
        valid_globs(ps, n - 1).push(ps[n - 1])
    } else {
        valid_globs(ps, n - 1)
    }
}

/// The error messages of the patterns among `ps[..n]` that do not compile,
/// in order.
pub open spec fn glob_errors(ps: Seq<Seq<char>>, n: int) -> Seq<Seq<char>>
    decreases n,
{
    if n <= 0 {
        Seq::empty()
    } else {
        match glob_error(ps[n - 1]) {
            None => glob_errors(ps, n - 1),
            Some(m) => glob_errors(ps, n - 1).push(m),
        }
    }
}

/// The **ignore patterns** are a list of globs that are tested against
/// each file name, and if any of them match, that file isn't displayed.
#[derive(PartialEq, Debug)]
pub struct IgnorePatterns {
    patterns: Vec<String>,
}

impl View for IgnorePatterns {
    type V = Seq<Seq<char>>;

    /// The sources of the patterns, in order.
    closed spec fn view(&self) -> Seq<Seq<char>> {
        texts_view(self.patterns@)
    }
}

impl IgnorePatterns {
    /// Every pattern compiles.
    #[verifier::type_invariant]
    closed spec fn inv(self) -> bool {
        forall|i: int| 0 <= i < self.patterns@.len() ==> glob_error(#[trigger] self.patterns@[i]@) is None
    }

    /// Create a new list from the input glob strings, keeping the inputs that
    /// are valid glob patterns, in order. The messages of the inputs that
    /// don't compile are returned separately, in order.
    pub fn parse_from_iter(iter: &Vec<String>) -> (r: (IgnorePatterns, Vec<String>))
        ensures
            r.0@ == valid_globs(texts_view(iter@), iter@.len() as int),
            texts_view(r.1@) == glob_errors(texts_view(iter@), iter@.len() as int),
    {
        let ghost ps = texts_view(iter@);
        let mut patterns: Vec<String> = Vec::new();
        let mut errors: Vec<String> = Vec::new();
        let mut i: usize = 0;
        while i < iter.len()
            invariant
                ps == texts_view(iter@),
                0 <= i <= iter@.len(),
                texts_view(patterns@) == valid_globs(ps, i as int),
                texts_view(errors@) == glob_errors(ps, i as int),
                forall|k: int| 0 <= k < patterns@.len() ==> glob_error(#[trigger] patterns@[k]@) is None,
            decreases iter@.len() - i,
        {
            let input = iter[i].as_str();
            assert(input@ == ps[i as int]);
            match glob_check(input) {
                None => {
                    let ghost before = texts_view(patterns@);
                    patterns.push(String::from_str(input));
                    assert(texts_view(patterns@) =~= before.push(ps[i as int]));
                },
                Some(m) => {
                    let ghost before = texts_view(errors@);
                    let ghost mv = m@;
                    errors.push(m);
                    assert(texts_view(errors@) =~= before.push(mv));
                },
            }
            i = i + 1;
        }
        (IgnorePatterns { patterns }, errors)
    }

    /// Create a new empty set of patterns that matches nothing.
    pub fn empty() -> (r: IgnorePatterns)
        ensures
            r@ == Seq::<Seq<char>>::empty(),
    {
        let r = IgnorePatterns { patterns: Vec::new() };
        assert(r@ =~= Seq::<Seq<char>>::empty());
        r
    }

    /// Test whether the given file should be hidden from the results: it is
    /// when any of the patterns matches its name.
    pub fn is_ignored(&self, file: &str) -> (r: bool)
        ensures
            r == exists|i: int| 0 <= i < self@.len() && glob_match(#[trigger] self@[i], file@),
    {
        proof { use_type_invariant(self); }
        let mut i: usize = 0;
        while i < self.patterns.len()
            invariant
                0 <= i <= self.patterns@.len(),
                forall|k: int| 0 <= k < self.patterns@.len() ==> glob_error(#[trigger] self.patterns@[k]@) is None,
                forall|k: int| 0 <= k < i ==> !glob_match(#[trigger] self@[k], file@),
            decreases self.patterns@.len() - i,
        {
            let p = self.patterns[i].as_str();
            assert(self@[i as int] == p@);
            if glob_matches(p, file) {
                return true;
            }
            i = i + 1;
        }
        false
    }
}


/// Whether any of the patterns matches the name.
pub open spec fn ignores(patterns: Seq<Seq<char>>, name: Seq<char>) -> bool {
    exists|i: int| 0 <= i < patterns.len() && glob_match(#[trigger] patterns[i], name)
}

/// The files among `files[..n]` that no pattern ignores (and, when
/// `only_dirs` is set, that are directories), in order.
pub open spec fn retained(files: Seq<SortKey>, n: int, patterns: Seq<Seq<char>>, only_dirs: bool) -> Seq<SortKey>
    decreases n,
{
    if n <= 0 {
        Seq::empty()
    } else {
        let f = files[n - 1];
        if !ignores(patterns, f.name@) && (!only_dirs || f.kind == Type::Directory) {
            retained(files, n - 1, patterns, only_dirs).push(f)
        } else {
            retained(files, n - 1, patterns, only_dirs)
        }
    }
}

impl FileFilter {
    /// Keeps the files that pass a test, in order.
    fn retain_files(&self, files: &mut Vec<SortKey>, only_dirs: bool)
        ensures
            final(files)@ == retained(old(files)@, old(files)@.len() as int, self.ignore_patterns@, only_dirs),
    {
        let ghost original = files@;
        let n = files.len();
        let mut rest: Vec<SortKey> = Vec::new();
        std::mem::swap(&mut rest, files);
        let mut kept: Vec<SortKey> = Vec::new();
        let mut taken: usize = 0;
        while rest.len() > 0
            invariant
                rest@ == original.subrange(taken as int, original.len() as int),
                taken <= original.len(),
                original.len() == n,
                kept@ == retained(original, taken as int, self.ignore_patterns@, only_dirs),
            decreases rest@.len(),
        {
            assert(taken < original.len());
            let f = rest.remove(0);
            assert(f == original[taken as int]);
            assert(rest@ =~= original.subrange(taken + 1, original.len() as int));
            let ignored = self.ignore_patterns.is_ignored(f.name.as_str());
            let is_dir = match f.kind {
                Type::Directory => true,
                _ => false,
            };
            if !ignored && (!only_dirs || is_dir) {
                kept.push(f);
            }
            taken = taken + 1;
        }
        assert(taken == original.len());
        *files = kept;
    }

    /// Removes the files that should not be listed when found inside a
    /// directory: those that a pattern ignores, and, when only directories
    /// are wanted, those that are not directories.
    pub fn filter_child_files(&self, files: &mut Vec<SortKey>)
        ensures
            final(files)@ == retained(old(files)@, old(files)@.len() as int, self.ignore_patterns@, self.only_dirs),
    {
        self.retain_files(files, self.only_dirs);
    }

    /// Removes the files named on the command line that a pattern ignores.
    /// Directories are not required here: a file that was asked for by
    /// name is shown whatever it is.
    pub fn filter_argument_files(&self, files: &mut Vec<SortKey>)
        ensures
            final(files)@ == retained(old(files)@, old(files)@.len() as int, self.ignore_patterns@, false),
    {
        self.retain_files(files, false);
    }
}


/// An empty list of patterns ignores no file.
pub proof fn law_no_patterns_ignore_nothing(name: Seq<char>)
    ensures
        !ignores(Seq::empty(), name),
{
}

} // verus!
