//! Getting the Git status of files and directories.
//!
//! Reading a repository is left to the caller: it discovers repositories,
//! reads the status of each path in them, and hands the results over as
//! plain values, with paths as lists of components.

use vstd::prelude::*;

use crate::fs::path::{comps, path_starts_with, paths_view, same_path, starts_with};
use crate::fs::fields::{Git as FileGit, GitStatus};

verus! {

/// What Git reports of a path in a repository: one flag for each kind of
/// change, staged (in the index) or not (in the working tree).
#[derive(PartialEq, Eq, Structural, Debug, Copy, Clone)]
pub struct Status {
    pub index_new: bool,
    pub index_modified: bool,
    pub index_deleted: bool,
    pub index_renamed: bool,
    pub index_typechange: bool,
    pub wt_new: bool,
    pub wt_modified: bool,
    pub wt_deleted: bool,
    pub wt_typechange: bool,
    pub wt_renamed: bool,
    pub wt_unreadable: bool,
    pub ignored: bool,
    pub conflicted: bool,
}

/// The status with no flag set.
pub open spec fn no_status() -> Status {
    Status {
        index_new: false,
        index_modified: false,
        index_deleted: false,
        index_renamed: false,
        index_typechange: false,
        wt_new: false,
        wt_modified: false,
        wt_deleted: false,
        wt_typechange: false,
        wt_renamed: false,
        wt_unreadable: false,
        ignored: false,
        conflicted: false,
    }
}

/// The status of a path that is ignored and nothing else.
pub open spec fn only_ignored() -> Status {
    Status { ignored: true, ..no_status() }
}

/// The flags set in either of two statuses.
pub open spec fn union(a: Status, b: Status) -> Status {
    Status {
        index_new: a.index_new || b.index_new,
        index_modified: a.index_modified || b.index_modified,
        index_deleted: a.index_deleted || b.index_deleted,
        index_renamed: a.index_renamed || b.index_renamed,
        index_typechange: a.index_typechange || b.index_typechange,
        wt_new: a.wt_new || b.wt_new,
        wt_modified: a.wt_modified || b.wt_modified,
        wt_deleted: a.wt_deleted || b.wt_deleted,
        wt_typechange: a.wt_typechange || b.wt_typechange,
        wt_renamed: a.wt_renamed || b.wt_renamed,
        wt_unreadable: a.wt_unreadable || b.wt_unreadable,
        ignored: a.ignored || b.ignored,
        conflicted: a.conflicted || b.conflicted,
    }
}

/// Whether every flag set in `b` is set in `a`.
pub open spec fn includes(a: Status, b: Status) -> bool {
    union(a, b) == a
}

impl Status {
    /// The status with no flag set.
    pub fn empty() -> (r: Status)
        ensures
            r == no_status(),
    {
        Status {
            index_new: false,
            index_modified: false,
            index_deleted: false,
            index_renamed: false,
            index_typechange: false,
            wt_new: false,
            wt_modified: false,
            wt_deleted: false,
            wt_typechange: false,
            wt_renamed: false,
            wt_unreadable: false,
            ignored: false,
            conflicted: false,
        }
    }

    /// The status of a path that is ignored and nothing else.
    pub fn ignored_only() -> (r: Status)
        ensures
            r == only_ignored(),
    {
        Status { ignored: true, ..Status::empty() }
    }

    /// The flags set in either this status or `other`.
    pub fn union(self, other: Status) -> (r: Status)
        ensures
            r == union(self, other),
    {
        Status {
            index_new: self.index_new || other.index_new,
            index_modified: self.index_modified || other.index_modified,
            index_deleted: self.index_deleted || other.index_deleted,
            index_renamed: self.index_renamed || other.index_renamed,
            index_typechange: self.index_typechange || other.index_typechange,
            wt_new: self.wt_new || other.wt_new,
            wt_modified: self.wt_modified || other.wt_modified,
            wt_deleted: self.wt_deleted || other.wt_deleted,
            wt_typechange: self.wt_typechange || other.wt_typechange,
            wt_renamed: self.wt_renamed || other.wt_renamed,
            wt_unreadable: self.wt_unreadable || other.wt_unreadable,
            ignored: self.ignored || other.ignored,
            conflicted: self.conflicted || other.conflicted,
        }
    }
}

/// The unstaged change to show for a status: the first of new, modified,
/// deleted, renamed, type change, ignored and conflicted that it has.
pub open spec fn spec_working_tree_status(s: Status) -> GitStatus {
    if s.wt_new {
        GitStatus::New
    } else if s.wt_modified {
        GitStatus::Modified
    } else if s.wt_deleted {
        GitStatus::Deleted
    } else if s.wt_renamed {
        GitStatus::Renamed
    } else if s.wt_typechange {
        GitStatus::TypeChange
    } else if s.ignored {
        GitStatus::Ignored
    } else if s.conflicted {
        GitStatus::Conflicted
    } else {
        GitStatus::NotModified
    }
}

/// The staged change to show for a status: the first of new, modified,
/// deleted, renamed and type change that it has.
pub open spec fn spec_index_status(s: Status) -> GitStatus {
    if s.index_new {
        GitStatus::New
    } else if s.index_modified {
        GitStatus::Modified
    } else if s.index_deleted {
        GitStatus::Deleted
    } else if s.index_renamed {
        GitStatus::Renamed
    } else if s.index_typechange {
        GitStatus::TypeChange
    } else {
        GitStatus::NotModified
    }
}

/// The character to display if the file has been modified, but not staged.
pub fn working_tree_status(s: Status) -> (r: GitStatus)
    ensures
        r == spec_working_tree_status(s),
{
    if s.wt_new {
        GitStatus::New
    } else if s.wt_modified {
        GitStatus::Modified
    } else if s.wt_deleted {
        GitStatus::Deleted
    } else if s.wt_renamed {
        GitStatus::Renamed
    } else if s.wt_typechange {
        GitStatus::TypeChange
    } else if s.ignored {
        GitStatus::Ignored
    } else if s.conflicted {
        GitStatus::Conflicted
    } else {
        GitStatus::NotModified
    }
}

/// The character to display if the file has been modified and the change
/// has been staged.
pub fn index_status(s: Status) -> (r: GitStatus)
    ensures
        r == spec_index_status(s),
{
    if s.index_new {
        GitStatus::New
    } else if s.index_modified {
        GitStatus::Modified
    } else if s.index_deleted {
        GitStatus::Deleted
    } else if s.index_renamed {
        GitStatus::Renamed
    } else if s.index_typechange {
        GitStatus::TypeChange
    } else {
        GitStatus::NotModified
    }
}

/// The statuses of a repository's paths, as plain values.
pub open spec fn entries_view(v: Seq<(Vec<Vec<u8>>, Status)>) -> Seq<(Seq<Seq<u8>>, Status)> {
    v.map_values(|e: (Vec<Vec<u8>>, Status)| (comps(e.0@), e.1))
}

/// Whether the status reported for `entry` counts towards the status of
/// `path`. An entry that is only ignored counts for every path under it. Any
/// other counts for a file only when it is that file, and for a directory
/// when it is under that directory.
pub open spec fn counts_for(entry: Seq<Seq<u8>>, status: Status, path: Seq<Seq<u8>>, dir: bool) -> bool {
    if status == only_ignored() {
        path_starts_with(path, entry)
    } else if dir {
        path_starts_with(entry, path)
    } else {
        entry == path
    }
}

/// The union of the statuses of the first `n` entries that count towards
/// `path`.
pub open spec fn combined(entries: Seq<(Seq<Seq<u8>>, Status)>, path: Seq<Seq<u8>>, dir: bool, n: int) -> Status
    decreases n,
{
    if n <= 0 {
        no_status()
    } else {
        let before = combined(entries, path, dir, n - 1);
        let e = entries[n - 1];
        if counts_for(e.0, e.1, path, dir) {
            union(before, e.1)
        } else {
            before
        }
    }
}

/// The status shown for a path, from the statuses of a repository.
pub open spec fn spec_status_of(entries: Seq<(Seq<Seq<u8>>, Status)>, path: Seq<Seq<u8>>, dir: bool) -> FileGit {
    let s = combined(entries, path, dir, entries.len() as int);
    FileGit { staged: spec_index_status(s), unstaged: spec_working_tree_status(s) }
}

/// The paths of a repository, each with its Git status.
pub struct Git {
    /// Each path, as its components, with the status reported for it.
    pub statuses: Vec<(Vec<Vec<u8>>, Status)>,
}

impl Git {
    /// The statuses as plain values.
    pub open spec fn view_entries(&self) -> Seq<(Seq<Seq<u8>>, Status)> {
        entries_view(self.statuses@)
    }

    /// The status of a directory (with `prefix_lookup`) or of a file. The
    /// path is absolute, as the repository names its paths.
    pub fn status(&self, index: &Vec<Vec<u8>>, prefix_lookup: bool) -> (r: FileGit)
        ensures
            r == spec_status_of(self.view_entries(), comps(index@), prefix_lookup),
    {
        if prefix_lookup {
            self.dir_status(index)
        } else {
            self.file_status(index)
        }
    }

    /// The status of a file: those reported for the file itself, and
    /// ignored, if any directory above it is ignored.
    pub fn file_status(&self, file: &Vec<Vec<u8>>) -> (r: FileGit)
        ensures
            r == spec_status_of(self.view_entries(), comps(file@), false),
    {
        let s = self.combine(file, false);
        FileGit { staged: index_status(s), unstaged: working_tree_status(s) }
    }

    /// The status of a directory: every change reported for a path under
    /// it counts (a directory with a modified file in it is modified), and
    /// ignored, if it or any directory above it is ignored.
    pub fn dir_status(&self, dir: &Vec<Vec<u8>>) -> (r: FileGit)
        ensures
            r == spec_status_of(self.view_entries(), comps(dir@), true),
    {
        let s = self.combine(dir, true);
        FileGit { staged: index_status(s), unstaged: working_tree_status(s) }
    }

    /// The union of the statuses that count towards `path`.
    fn combine(&self, path: &Vec<Vec<u8>>, dir: bool) -> (r: Status)
        ensures
            r == combined(self.view_entries(), comps(path@), dir, self.statuses@.len() as int),
    {
        let ghost entries = self.view_entries();
        let mut acc = Status::empty();
        let mut i: usize = 0;
        while i < self.statuses.len()
            invariant
                i <= self.statuses@.len(),
                entries == self.view_entries(),
                entries.len() == self.statuses@.len(),
                acc == combined(entries, comps(path@), dir, i as int),
            decreases self.statuses@.len() - i,
        {
            let entry = &self.statuses[i];
            assert(entries[i as int] == (comps(entry.0@), entry.1));
            let counts = if entry.1 == Status::ignored_only() {
                starts_with(path, &entry.0)
            } else if dir {
                starts_with(&entry.0, path)
            } else {
                same_path(&entry.0, path)
            };
            if counts {
                acc = acc.union(entry.1);
            }
            i = i + 1;
        }
        acc
    }
}

/// A Git repository that was discovered above one of the paths listed.
pub struct GitRepo {
    /// The statuses of the repository's paths.
    pub statuses: Git,
    /// The repository's working directory, which tells two repositories
    /// apart.
    pub workdir: Vec<Vec<u8>>,
    /// The path that was looked at to discover this repository.
    pub original_path: Vec<Vec<u8>>,
    /// Other paths that were looked at, only to find the same repository.
    pub extra_paths: Vec<Vec<Vec<u8>>>,
}

/// Whether `path` is under any of `bases`.
pub open spec fn under_any(path: Seq<Seq<u8>>, bases: Seq<Seq<Seq<u8>>>) -> bool {
    exists|i: int| 0 <= i < bases.len() && path_starts_with(path, #[trigger] bases[i])
}

impl GitRepo {
    /// Whether this repository cares about `path`: it is under the path
    /// that found the repository, or under one of the others that did.
    pub open spec fn spec_has_path(&self, path: Seq<Seq<u8>>) -> bool {
        path_starts_with(path, comps(self.original_path@))
            || under_any(path, paths_view(self.extra_paths@))
    }

    /// Whether this repository has the given working directory.
    pub fn has_workdir(&self, path: &Vec<Vec<u8>>) -> (r: bool)
        ensures
            r == (comps(self.workdir@) == comps(path@)),
    {
        same_path(&self.workdir, path)
    }

    /// Whether this repository cares about the given path at all.
    pub fn has_path(&self, path: &Vec<Vec<u8>>) -> (r: bool)
        ensures
            r == self.spec_has_path(comps(path@)),
    {
        if starts_with(path, &self.original_path) {
            return true;
        }
        let mut i: usize = 0;
        while i < self.extra_paths.len()
            invariant
                i <= self.extra_paths@.len(),
                forall|j: int| 0 <= j < i ==> !path_starts_with(comps(path@), paths_view(self.extra_paths@)[j]),
            decreases self.extra_paths@.len() - i,
        {
            if starts_with(path, &self.extra_paths[i]) {
                assert(path_starts_with(comps(path@), paths_view(self.extra_paths@)[i as int]));
                return true;
            }
            i = i + 1;
        }
        false
    }

    /// The status of a path in this repository, given as the absolute
    /// path that the repository names it by.
    pub fn search(&self, absolute: &Vec<Vec<u8>>, prefix_lookup: bool) -> (r: FileGit)
        ensures
            r == spec_status_of(self.statuses.view_entries(), comps(absolute@), prefix_lookup),
    {
        self.statuses.status(absolute, prefix_lookup)
    }
}

/// The Git repositories found above the paths listed, and the paths above
/// which none was found.
pub struct GitCache {
    /// The repositories discovered.
    pub repos: Vec<GitRepo>,
    /// Paths known to have no repository above them.
    pub misses: Vec<Vec<Vec<u8>>>,
}

/// The index of the first repository of `repos` that cares about `path`.
pub open spec fn first_repo_for(repos: Seq<GitRepo>, path: Seq<Seq<u8>>, i: int) -> Option<int>
    decreases repos.len() - i,
{
    if i < 0 || i >= repos.len() {
        None
    } else if repos[i].spec_has_path(path) {
        Some(i)
    } else {
        first_repo_for(repos, path, i + 1)
    }
}

/// The repository that `first_repo_for` finds is one of `repos[i..]`, and it
/// cares about the path.
pub proof fn lemma_first_repo_for(repos: Seq<GitRepo>, path: Seq<Seq<u8>>, i: int)
    requires
        0 <= i,
    ensures
        match first_repo_for(repos, path, i) {
            Some(k) => i <= k < repos.len() && repos[k].spec_has_path(path),
            None => forall|k: int| i <= k < repos.len() ==> !#[trigger] repos[k].spec_has_path(path),
        },
    decreases repos.len() - i,
{
    if i < repos.len() && !repos[i].spec_has_path(path) {
        lemma_first_repo_for(repos, path, i + 1);
    }
}

/// The index of the first repository of `repos[i..]` with the working
/// directory `workdir`.
pub open spec fn first_workdir(repos: Seq<GitRepo>, workdir: Seq<Seq<u8>>, i: int) -> Option<int>
    decreases repos.len() - i,
{
    if i < 0 || i >= repos.len() {
        None
    } else if comps(repos[i].workdir@) == workdir {
        Some(i)
    } else {
        first_workdir(repos, workdir, i + 1)
    }
}

impl GitCache {
    /// A cache that knows of no repository yet.
    pub fn new() -> (r: GitCache)
        ensures
            r.repos@.len() == 0,
            r.misses@.len() == 0,
    {
        GitCache { repos: Vec::new(), misses: Vec::new() }
    }

    /// The status of a path: that of its absolute form in the first
    /// repository that cares about it, or nothing modified, if none does.
    pub open spec fn spec_get(&self, index: Seq<Seq<u8>>, absolute: Seq<Seq<u8>>, prefix_lookup: bool) -> FileGit {
        match first_repo_for(self.repos@, index, 0) {
            Some(i) => spec_status_of(self.repos@[i].statuses.view_entries(), absolute, prefix_lookup),
            None => FileGit { staged: GitStatus::NotModified, unstaged: GitStatus::NotModified },
        }
    }

    /// Whether any repository cares about the given path.
    pub fn has_anything_for(&self, index: &Vec<Vec<u8>>) -> (r: bool)
        ensures
            r == (first_repo_for(self.repos@, comps(index@), 0) is Some),
    {
        self.find_repo(index).is_some()
    }

    /// The Git status of a file or, with `prefix_lookup`, of a directory.
    /// The path is given as it was listed, which picks the repository, and
    /// as the absolute path that the repository names it by.
    pub fn get(&self, index: &Vec<Vec<u8>>, absolute: &Vec<Vec<u8>>, prefix_lookup: bool) -> (r: FileGit)
        ensures
            r == self.spec_get(comps(index@), comps(absolute@), prefix_lookup),
    {
        let found = self.find_repo(index);
        proof {
            lemma_first_repo_for(self.repos@, comps(index@), 0);
        }
        match found {
            Some(i) => self.repos[i].search(absolute, prefix_lookup),
            None => FileGit::empty(),
        }
    }

    /// The index of the first repository that cares about `index`.
    fn find_repo(&self, index: &Vec<Vec<u8>>) -> (r: Option<usize>)
        ensures
            match r {
                Some(i) => first_repo_for(self.repos@, comps(index@), 0) == Some(i as int),
                None => first_repo_for(self.repos@, comps(index@), 0) is None,
            },
    {
        let mut i: usize = 0;
        while i < self.repos.len()
            invariant
                i <= self.repos@.len(),
                first_repo_for(self.repos@, comps(index@), 0) == first_repo_for(
                    self.repos@,
                    comps(index@),
                    i as int,
                ),
            decreases self.repos@.len() - i,
        {
            if self.repos[i].has_path(index) {
                return Some(i);
            }
            i = i + 1;
        }
        None
    }

    /// Whether a repository still has to be looked for above `path`: it is
    /// not known to have none, and no repository found cares about it.
    pub fn needs_discovery(&self, path: &Vec<Vec<u8>>) -> (r: bool)
        ensures
            r == (!(exists|j: int| 0 <= j < self.misses@.len() && #[trigger] paths_view(self.misses@)[j] == comps(path@))
                && first_repo_for(self.repos@, comps(path@), 0) is None),
    {
        let mut i: usize = 0;
        while i < self.misses.len()
            invariant
                i <= self.misses@.len(),
                forall|j: int| 0 <= j < i ==> paths_view(self.misses@)[j] != comps(path@),
            decreases self.misses@.len() - i,
        {
            if same_path(&self.misses[i], path) {
                assert(paths_view(self.misses@)[i as int] == comps(path@));
                return false;
            }
            i = i + 1;
        }
        !self.has_anything_for(path)
    }

    /// The index of a repository with the given working directory.
    fn find_workdir(&self, workdir: &Vec<Vec<u8>>) -> (r: Option<usize>)
        ensures
            match r {
                Some(i) => i < self.repos@.len() && first_workdir(self.repos@, comps(workdir@), 0) == Some(i as int),
                None => first_workdir(self.repos@, comps(workdir@), 0) is None,
            },
    {
        let mut i: usize = 0;
        while i < self.repos.len()
            invariant
                i <= self.repos@.len(),
                first_workdir(self.repos@, comps(workdir@), 0) == first_workdir(
                    self.repos@,
                    comps(workdir@),
                    i as int,
                ),
            decreases self.repos@.len() - i,
        {
            if self.repos[i].has_workdir(workdir) {
                return Some(i);
            }
            i = i + 1;
        }
        None
    }

    /// Records what looking for a repository above a path found: a
    /// repository, which joins one already found with the same working
    /// directory, or the path, when none was found.
    pub fn add_discovered(&mut self, found: Result<GitRepo, Vec<Vec<u8>>>)
        ensures
            match found {
                Err(miss) => paths_view(final(self).misses@) == paths_view(old(self).misses@).push(comps(miss@))
                    && final(self).repos@ == old(self).repos@,
                Ok(repo) => final(self).misses == old(self).misses && match first_workdir(
                    old(self).repos@,
                    comps(repo.workdir@),
                    0,
                ) {
                    Some(k) => final(self).repos@ == old(self).repos@.update(
                        k,
                        GitRepo {
                            extra_paths: final(self).repos@[k].extra_paths,
                            ..old(self).repos@[k]
                        },
                    ) && final(self).repos@[k].extra_paths@ == old(self).repos@[k].extra_paths@.push(repo.original_path),
                    None => final(self).repos@ == old(self).repos@.push(repo),
                },
            },
    {
        match found {
            Err(miss) => {
                self.misses.push(miss);
            },
            Ok(repo) => {
                match self.find_workdir(&repo.workdir) {
                    Some(i) => {
                        self.repos[i].extra_paths.push(repo.original_path);
                    },
                    None => {
                        self.repos.push(repo);
                    },
                }
            },
        }
    }
}

/// Every status that counts towards a path is part of the combined one.
pub proof fn lemma_combined_includes(
    entries: Seq<(Seq<Seq<u8>>, Status)>,
    path: Seq<Seq<u8>>,
    dir: bool,
    n: int,
    i: int,
)
    requires
        0 <= i < n <= entries.len(),
        counts_for(entries[i].0, entries[i].1, path, dir),
    ensures
        includes(combined(entries, path, dir, n), entries[i].1),
    decreases n,
{
    if i < n - 1 {
        lemma_combined_includes(entries, path, dir, n - 1, i);
    }
}

/// A directory's status gathers those of the paths under it: a change
/// reported for any path under the directory is a change of the directory,
/// so a directory with a modified file in it is shown as new or modified.
/// Being ignored is the exception: it passes down to the paths under an
/// ignored directory, not up.
pub proof fn law_dir_status_gathers_paths_under_it(
    entries: Seq<(Seq<Seq<u8>>, Status)>,
    dir: Seq<Seq<u8>>,
    i: int,
)
    requires
        0 <= i < entries.len(),
        path_starts_with(entries[i].0, dir),
        entries[i].1 != only_ignored(),
    ensures
        includes(combined(entries, dir, true, entries.len() as int), entries[i].1),
        entries[i].1.wt_modified ==> spec_status_of(entries, dir, true).unstaged == GitStatus::New
            || spec_status_of(entries, dir, true).unstaged == GitStatus::Modified,
        entries[i].1.index_modified ==> spec_status_of(entries, dir, true).staged == GitStatus::New
            || spec_status_of(entries, dir, true).staged == GitStatus::Modified,
{
    lemma_combined_includes(entries, dir, true, entries.len() as int, i);
}

/// A path under an ignored directory is ignored too, whether it is looked
/// up as a file or as a directory: unless Git reports a change of it, it is
/// shown as ignored.
pub proof fn law_ignored_above_means_ignored(
    entries: Seq<(Seq<Seq<u8>>, Status)>,
    path: Seq<Seq<u8>>,
    dir: bool,
    i: int,
)
    requires
        0 <= i < entries.len(),
        entries[i].1 == only_ignored(),
        path_starts_with(path, entries[i].0),
    ensures
        combined(entries, path, dir, entries.len() as int).ignored,
        ({
            let s = combined(entries, path, dir, entries.len() as int);
            !(s.wt_new || s.wt_modified || s.wt_deleted || s.wt_renamed || s.wt_typechange)
                ==> spec_status_of(entries, path, dir).unstaged == GitStatus::Ignored
        }),
{
    lemma_combined_includes(entries, path, dir, entries.len() as int, i);
}

/// A path that no reported status counts towards is not modified.
pub proof fn law_unreported_is_not_modified(entries: Seq<(Seq<Seq<u8>>, Status)>, path: Seq<Seq<u8>>, dir: bool)
    requires
        forall|i: int| 0 <= i < entries.len() ==> !counts_for(#[trigger] entries[i].0, entries[i].1, path, dir),
    ensures
        spec_status_of(entries, path, dir) == (FileGit { staged: GitStatus::NotModified, unstaged: GitStatus::NotModified }),
{
    lemma_combined_none(entries, path, dir, entries.len() as int);
}

/// With no status counting towards a path, the combined status is empty.
proof fn lemma_combined_none(entries: Seq<(Seq<Seq<u8>>, Status)>, path: Seq<Seq<u8>>, dir: bool, n: int)
    requires
        n <= entries.len(),
        forall|i: int| 0 <= i < entries.len() ==> !counts_for(#[trigger] entries[i].0, entries[i].1, path, dir),
    ensures
        combined(entries, path, dir, n) == no_status(),
    decreases n,
{
    if n > 0 {
        lemma_combined_none(entries, path, dir, n - 1);
        assert(!counts_for(entries[n - 1].0, entries[n - 1].1, path, dir));
    }
}

/// The staged change shown for a status is the first it has of new,
/// modified, deleted, renamed and type change; with none of them, nothing
/// is staged. Unstaged flags and being ignored play no part.
pub proof fn law_staged_change_shown(s: Status)
    ensures
        s.index_new ==> spec_index_status(s) == GitStatus::New,
        !s.index_new && s.index_modified ==> spec_index_status(s) == GitStatus::Modified,
        !s.index_new && !s.index_modified && s.index_deleted ==> spec_index_status(s) == GitStatus::Deleted,
        !s.index_new && !s.index_modified && !s.index_deleted && s.index_renamed
            ==> spec_index_status(s) == GitStatus::Renamed,
        !s.index_new && !s.index_modified && !s.index_deleted && !s.index_renamed && s.index_typechange
            ==> spec_index_status(s) == GitStatus::TypeChange,
        !s.index_new && !s.index_modified && !s.index_deleted && !s.index_renamed && !s.index_typechange
            ==> spec_index_status(s) == GitStatus::NotModified,
{
}

/// The unstaged change shown for a status is the first it has of new,
/// modified, deleted, renamed, type change, ignored and conflicted; with
/// none of them, nothing has changed. Staged flags play no part.
pub proof fn law_unstaged_change_shown(s: Status)
    ensures
        s.wt_new ==> spec_working_tree_status(s) == GitStatus::New,
        !s.wt_new && s.wt_modified ==> spec_working_tree_status(s) == GitStatus::Modified,
        !s.wt_new && !s.wt_modified && s.wt_deleted ==> spec_working_tree_status(s) == GitStatus::Deleted,
        !s.wt_new && !s.wt_modified && !s.wt_deleted && s.wt_renamed
            ==> spec_working_tree_status(s) == GitStatus::Renamed,
        !s.wt_new && !s.wt_modified && !s.wt_deleted && !s.wt_renamed && s.wt_typechange
            ==> spec_working_tree_status(s) == GitStatus::TypeChange,
        !s.wt_new && !s.wt_modified && !s.wt_deleted && !s.wt_renamed && !s.wt_typechange && s.ignored
            ==> spec_working_tree_status(s) == GitStatus::Ignored,
        !s.wt_new && !s.wt_modified && !s.wt_deleted && !s.wt_renamed && !s.wt_typechange && !s.ignored
            && s.conflicted ==> spec_working_tree_status(s) == GitStatus::Conflicted,
        !s.wt_new && !s.wt_modified && !s.wt_deleted && !s.wt_renamed && !s.wt_typechange && !s.ignored
            && !s.conflicted ==> spec_working_tree_status(s) == GitStatus::NotModified,
{
}

/// A file with one reported status, other than only being ignored, shows
/// that status's staged and unstaged changes; a file whose deletion is
/// staged shows a staged deletion and no unstaged change.
pub proof fn law_single_file_status(path: Seq<Seq<u8>>, s: Status)
    requires
        s != only_ignored(),
    ensures
        spec_status_of(seq![(path, s)], path, false)
            == (FileGit { staged: spec_index_status(s), unstaged: spec_working_tree_status(s) }),
        s == (Status { index_deleted: true, ..no_status() }) ==> spec_status_of(seq![(path, s)], path, false)
            == (FileGit { staged: GitStatus::Deleted, unstaged: GitStatus::NotModified }),
{
    let entries = seq![(path, s)];
    assert(entries[0] == (path, s));
    assert(combined(entries, path, false, 0) == no_status());
    assert(union(no_status(), s) == s);
}

} // verus!
