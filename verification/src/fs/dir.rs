//! A directory's entries, and which of them are shown.
//!
//! Reading the directory is left to the caller, which hands over the paths
//! of its entries as lists of components.

use vstd::prelude::*;

use crate::fs::fields::{Git as FileGit, GitStatus};
use crate::fs::git::GitCache;
use crate::fs::dir_action::DirAction;
use crate::fs::fields::Type;
use crate::fs::order::SortKey;
use crate::fs::path::{comps, same_path};
use crate::text::str_eq;

verus! {

/// Usually files in Unix use a leading dot to be hidden or visible, but two
/// entries in particular are "extra-hidden": `.` and `..`, which only become
/// visible after an extra `-a` option.
#[derive(PartialEq, Eq, Debug, Copy, Clone)]
pub enum DotFilter {
    /// Shows files, dotfiles, and `.` and `..`.
    DotfilesAndDots,
    /// Show files and dotfiles, but hide `.` and `..`.
    Dotfiles,
    /// Just show files, hiding anything beginning with a dot.
    JustFiles,
}

/// What a listing yields first: the `.` entry, the `..` entry, or the
/// directory's own files.
#[derive(PartialEq, Eq, Debug, Copy, Clone)]
pub enum DotsNext {
    /// List the `.` directory next.
    Dot,
    /// List the `..` directory next.
    DotDot,
    /// Forget about the dot directories and just list files.
    Files,
}

impl DotFilter {
    /// Whether this filter shows dotfiles.
    pub open spec fn spec_shows_dotfiles(self) -> bool {
        !(self is JustFiles)
    }

    /// What a listing with this filter yields first.
    pub open spec fn spec_dots(self) -> DotsNext {
        if self is DotfilesAndDots { DotsNext::Dot } else { DotsNext::Files }
    }

    /// The filter used when nothing else is asked for.
    pub fn default() -> (r: DotFilter)
        ensures
            r == DotFilter::JustFiles,
    {
        DotFilter::JustFiles
    }

    /// Whether this filter should show dotfiles in a listing.
    pub fn shows_dotfiles(self) -> (r: bool)
        ensures
            r == !(self is JustFiles),
    {
        match self {
            DotFilter::JustFiles => false,
            DotFilter::Dotfiles => true,
            DotFilter::DotfilesAndDots => true,
        }
    }

    /// Whether this filter should add dot directories to a listing.
    pub fn dots(self) -> (r: DotsNext)
        ensures
            r == (if self is DotfilesAndDots { DotsNext::Dot } else { DotsNext::Files }),
    {
        match self {
            DotFilter::JustFiles => DotsNext::Files,
            DotFilter::Dotfiles => DotsNext::Files,
            DotFilter::DotfilesAndDots => DotsNext::Dot,
        }
    }
}

/// One of a directory's entries: its path, and the absolute path that a
/// Git repository would name it by.
pub struct DirEntry {
    /// The path, as the directory's path joined with the entry's name.
    pub path: Vec<Vec<u8>>,
    /// The same path made absolute.
    pub absolute: Vec<Vec<u8>>,
}

/// The list of the entries of a directory that is being listed, read once
/// and kept, so that files can look at the other files around them.
pub struct Dir {
    /// The entries that were read from the directory.
    pub contents: Vec<DirEntry>,
    /// The path that was read.
    pub path: Vec<Vec<u8>>,
}

/// A path joined with another: the other, when it is absolute (its first
/// component is the root), and otherwise the one followed by the other.
pub open spec fn joined(base: Seq<Seq<u8>>, child: Seq<Seq<u8>>) -> Seq<Seq<u8>> {
    if child.len() > 0 && child[0] == seq![47u8] {
        child
    } else {
        base + child
    }
}

/// Whether the last component of a path begins with a dot.
pub open spec fn is_hidden_path(path: Seq<Seq<u8>>) -> bool {
    path.len() > 0 && path.last().len() > 0 && path.last()[0] == 46u8
}

/// The Git status of an entry, from the repositories found, if any.
pub open spec fn entry_status(git: Option<&GitCache>, e: &DirEntry) -> FileGit {
    match git {
        Some(g) => g.spec_get(comps(e.path@), comps(e.absolute@), false),
        None => FileGit { staged: GitStatus::NotModified, unstaged: GitStatus::NotModified },
    }
}

impl Dir {
    /// Whether this directory has an entry with the given path.
    pub fn contains(&self, path: &Vec<Vec<u8>>) -> (r: bool)
        ensures
            r == exists|i: int| 0 <= i < self.contents@.len() && comps(#[trigger] self.contents@[i].path@) == comps(path@),
    {
        let mut i: usize = 0;
        while i < self.contents.len()
            invariant
                i <= self.contents@.len(),
                forall|j: int| 0 <= j < i ==> comps(#[trigger] self.contents@[j].path@) != comps(path@),
            decreases self.contents@.len() - i,
        {
            if same_path(&self.contents[i].path, path) {
                return true;
            }
            i = i + 1;
        }
        false
    }

    /// This directory's path joined with `child`.
    pub fn join(&self, child: &Vec<Vec<u8>>) -> (r: Vec<Vec<u8>>)
        ensures
            comps(r@) == joined(comps(self.path@), comps(child@)),
    {
        let absolute = child.len() > 0 && child[0].len() == 1 && child[0][0] == 47u8;
        proof {
            if child@.len() > 0 {
                assert(comps(child@)[0] == child@[0]@);
                if child@[0]@.len() == 1 && child@[0]@[0] == 47u8 {
                    assert(child@[0]@ =~= seq![47u8]);
                }
            }
        }
        let mut out: Vec<Vec<u8>> = Vec::new();
        if !absolute {
            let mut i: usize = 0;
            while i < self.path.len()
                invariant
                    i <= self.path@.len(),
                    comps(out@) == comps(self.path@).subrange(0, i as int),
                decreases self.path@.len() - i,
            {
                let c = self.path[i].clone();
                assert(c@ =~= self.path@[i as int]@);
                let ghost before = out@;
                out.push(c);
                assert(comps(out@) =~= comps(before).push(c@));
                assert(comps(out@) =~= comps(self.path@).subrange(0, i + 1));
                i = i + 1;
            }
            assert(comps(self.path@).subrange(0, self.path@.len() as int) =~= comps(self.path@));
        }
        let ghost start = comps(out@);
        let mut k: usize = 0;
        while k < child.len()
            invariant
                k <= child@.len(),
                comps(out@) == start + comps(child@).subrange(0, k as int),
            decreases child@.len() - k,
        {
            let c = child[k].clone();
            assert(c@ =~= child@[k as int]@);
            let ghost before = out@;
            out.push(c);
            assert(comps(out@) =~= comps(before).push(c@));
            assert(comps(out@) =~= start + comps(child@).subrange(0, k + 1));
            k = k + 1;
        }
        assert(comps(child@).subrange(0, child@.len() as int) =~= comps(child@));
        if absolute {
            assert(start =~= Seq::<Seq<u8>>::empty());
            assert(comps(out@) =~= comps(child@));
        }
        out
    }

    /// The listing of this directory's entries: the `.` and `..` entries
    /// first when the filter shows them, then the entries that are shown.
    pub fn files<'dir, 'ig>(&'dir self, dots: DotFilter, git: Option<&'ig GitCache>, git_ignoring: bool) -> (r: Files<'dir, 'ig>)
        ensures
            r.dir == self,
            r.index == 0,
            r.dotfiles == dots.spec_shows_dotfiles(),
            r.dots == dots.spec_dots(),
            r.git == git,
            r.git_ignoring == git_ignoring,
    {
        Files { dir: self, index: 0, dotfiles: dots.shows_dotfiles(), dots: dots.dots(), git, git_ignoring }
    }
}

/// The state of a listing of a directory's entries.
pub struct Files<'dir, 'ig> {
    /// The directory being listed.
    pub dir: &'dir Dir,
    /// The index of the next entry to look at.
    pub index: usize,
    /// Whether dotfiles are shown.
    pub dotfiles: bool,
    /// Whether the `.` or `..` entries are still to come first.
    pub dots: DotsNext,
    /// The Git repositories found, if any.
    pub git: Option<&'ig GitCache>,
    /// Whether files that Git ignores are hidden.
    pub git_ignoring: bool,
}

/// What a listing yields: the `.` entry, the `..` entry (with its path), or
/// one of the directory's entries (by its index).
#[derive(PartialEq, Eq, Debug, Clone)]
pub enum Listed {
    Current,
    Parent(Vec<Vec<u8>>),
    Entry(usize),
}

impl<'dir, 'ig> Files<'dir, 'ig> {
    /// Whether the entry `e` is shown: a dotfile only when dotfiles are, and,
    /// when Git-ignored files are hidden, not a file that Git ignores.
    pub open spec fn shows(&self, e: &DirEntry) -> bool {
        &&& (self.dotfiles || !is_hidden_path(comps(e.path@)))
        &&& !(self.git_ignoring && entry_status(self.git, e).unstaged == GitStatus::Ignored)
    }

    /// The path of the `..` entry: the directory's path followed by `..`.
    /// (Removing the last component would not do for a relative path such
    /// as `.`, whose parent is not the empty path.)
    pub fn parent(&self) -> (r: Vec<Vec<u8>>)
        ensures
            comps(r@) == comps(self.dir.path@).push(seq![46u8, 46u8]),
    {
        let child: Vec<Vec<u8>> = vec![vec![46u8, 46u8]];
        let r = self.dir.join(&child);
        assert(comps(child@) =~= seq![seq![46u8, 46u8]]);
        assert(comps(child@)[0] != seq![47u8]);
        assert(comps(self.dir.path@) + comps(child@) =~= comps(self.dir.path@).push(seq![46u8, 46u8]));
        r
    }

    /// Whether the entry at `i` is shown.
    fn is_visible(&self, i: usize) -> (r: bool)
        requires
            i < self.dir.contents@.len(),
        ensures
            r == self.shows(&self.dir.contents@[i as int]),
    {
        let e = &self.dir.contents[i];
        let hidden = e.path.len() > 0 && {
            let last = &e.path[e.path.len() - 1];
            last.len() > 0 && last[0] == 46u8
        };
        if !self.dotfiles && hidden {
            return false;
        }
        if self.git_ignoring {
            let status = match self.git {
                Some(g) => g.get(&e.path, &e.absolute, false),
                None => FileGit::empty(),
            };
            if status.unstaged == GitStatus::Ignored {
                return false;
            }
        }
        true
    }

    /// Goes through the directory until an entry that is shown, which it
    /// returns.
    fn next_visible_file(&mut self) -> (r: Option<usize>)
        ensures
            final(self).dir == old(self).dir,
            final(self).dotfiles == old(self).dotfiles,
            final(self).dots == old(self).dots,
            final(self).git == old(self).git,
            final(self).git_ignoring == old(self).git_ignoring,
            match r {
                Some(k) => old(self).index <= k < final(self).dir.contents@.len() && final(self).index == k + 1
                    && final(self).shows(&final(self).dir.contents@[k as int])
                    && forall|j: int| old(self).index <= j < k ==> !final(self).shows(&#[trigger] final(self).dir.contents@[j]),
                None => final(self).index >= final(self).dir.contents@.len() && final(self).index >= old(self).index
                    && forall|j: int| old(self).index <= j < final(self).dir.contents@.len() ==> !final(self).shows(&#[trigger] final(self).dir.contents@[j]),
            },
    {
        let start = self.index;
        if start >= self.dir.contents.len() {
            return None;
        }
        while self.index < self.dir.contents.len()
            invariant
                self.dir == old(self).dir,
                self.dotfiles == old(self).dotfiles,
                self.dots == old(self).dots,
                self.git == old(self).git,
                self.git_ignoring == old(self).git_ignoring,
                start == old(self).index,
                start <= self.index <= self.dir.contents@.len(),
                forall|j: int| start <= j < self.index ==> !self.shows(&#[trigger] self.dir.contents@[j]),
            decreases self.dir.contents@.len() - self.index,
        {
            let i = self.index;
            self.index = i + 1;
            if self.is_visible(i) {
                return Some(i);
            }
        }
        None
    }

    /// The next thing to list: `.` and then `..`, if they are to come, and
    /// then the next entry that is shown; nothing once every entry has been
    /// looked at.
    pub fn next(&mut self) -> (r: Option<Listed>)
        ensures
            final(self).dir == old(self).dir,
            match old(self).dots {
                DotsNext::Dot => r == Some(Listed::Current) && final(self).dots == DotsNext::DotDot
                    && final(self).index == old(self).index,
                DotsNext::DotDot => final(self).dots == DotsNext::Files && final(self).index == old(self).index
                    && (r matches Some(Listed::Parent(p)) && comps(p@) == comps(old(self).dir.path@).push(seq![46u8, 46u8])),
                DotsNext::Files => final(self).dots == DotsNext::Files && match r {
                    Some(Listed::Entry(k)) => old(self).index <= k < final(self).dir.contents@.len()
                        && final(self).index == k + 1
                        && old(self).shows(&old(self).dir.contents@[k as int])
                        && forall|j: int| old(self).index <= j < k ==> !old(self).shows(&#[trigger] old(self).dir.contents@[j]),
                    None => final(self).index >= final(self).dir.contents@.len() && final(self).index >= old(self).index
                        && forall|j: int| old(self).index <= j < final(self).dir.contents@.len() ==> !old(self).shows(&#[trigger] old(self).dir.contents@[j]),
                    _ => false,
                },
            },
    {
        match self.dots {
            DotsNext::Dot => {
                self.dots = DotsNext::DotDot;
                Some(Listed::Current)
            },
            DotsNext::DotDot => {
                self.dots = DotsNext::Files;
                Some(Listed::Parent(self.parent()))
            },
            DotsNext::Files => match self.next_visible_file() {
                Some(k) => Some(Listed::Entry(k)),
                None => None,
            },
        }
    }
}

/// The depth of a directory: the number of its path's components, not
/// counting `.`.
pub open spec fn depth_of(path: Seq<Seq<u8>>) -> nat
    decreases path.len(),
{
    if path.len() == 0 {
        0
    } else {
        depth_of(path.drop_last()) + if path.last() == seq![46u8] { 0nat } else { 1nat }
    }
}

/// Whether a listed file is a directory to go into when recursing: a
/// directory, and not the `.` or `..` entry.
pub open spec fn is_child_dir(f: SortKey) -> bool {
    f.kind == Type::Directory && f.name@ != "."@ && f.name@ != ".."@
}

/// The indices of the files among `children[..n]` to go into, in order.
pub open spec fn child_dirs_of(children: Seq<SortKey>, n: int) -> Seq<usize>
    decreases n,
{
    if n <= 0 {
        Seq::empty()
    } else if is_child_dir(children[n - 1]) {
        child_dirs_of(children, n - 1).push((n - 1) as usize)
    } else {
        child_dirs_of(children, n - 1)
    }
}

/// Whether the listing of the directory at `dir` goes on into the
/// directories inside it: it recurses, not as a tree, and the directories
/// inside are not too deep.
pub open spec fn recurses_into(action: DirAction, dir: Seq<Seq<u8>>) -> bool {
    match action {
        DirAction::Recurse(o) => !o.tree && match o.max_depth {
            None => true,
            Some(d) => d > depth_of(dir) + 1,
        },
        _ => false,
    }
}

/// The number of components of a path that are not `.`.
fn path_depth(dir: &Vec<Vec<u8>>) -> (r: usize)
    ensures
        r == depth_of(comps(dir@)),
{
    let mut n: usize = 0;
    let mut i: usize = 0;
    while i < dir.len()
        invariant
            i <= dir@.len(),
            n <= i,
            n == depth_of(comps(dir@).subrange(0, i as int)),
        decreases dir@.len() - i,
    {
        let c = &dir[i];
        let dot = c.len() == 1 && c[0] == 46u8;
        let ghost prefix = comps(dir@).subrange(0, i + 1);
        assert(prefix.drop_last() =~= comps(dir@).subrange(0, i as int));
        assert(prefix.last() == c@);
        assert(dot == (c@ == seq![46u8])) by {
            if c@.len() == 1 && c@[0] == 46u8 {
                assert(c@ =~= seq![46u8]);
            }
        }
        if !dot {
            n = n + 1;
        }
        i = i + 1;
    }
    assert(comps(dir@).subrange(0, dir@.len() as int) =~= comps(dir@));
    n
}

/// The files listed in the directory at `dir` that the listing goes into
/// next, by their indices in `children`: the directories among them (not
/// `.` or `..`), when the listing recurses into this directory's
/// directories, and none otherwise.
pub fn dirs_to_recurse(action: DirAction, dir: &Vec<Vec<u8>>, children: &Vec<SortKey>) -> (r: Vec<usize>)
    ensures
        r@ == (if recurses_into(action, comps(dir@)) {
            child_dirs_of(children@, children@.len() as int)
        } else {
            Seq::empty()
        }),
{
    let go = match action.recurse_options() {
        Some(o) => {
            let depth = path_depth(dir);
            let too_deep = if depth == usize::MAX {
                o.max_depth.is_some()
            } else {
                o.is_too_deep(depth + 1)
            };
            !o.tree && !too_deep
        },
        None => false,
    };
    let mut out: Vec<usize> = Vec::new();
    if !go {
        return out;
    }
    let mut i: usize = 0;
    while i < children.len()
        invariant
            i <= children@.len(),
            out@ == child_dirs_of(children@, i as int),
        decreases children@.len() - i,
    {
        let f = &children[i];
        let is_dir = match f.kind {
            Type::Directory => true,
            _ => false,
        };
        if is_dir && !str_eq(f.name.as_str(), ".") && !str_eq(f.name.as_str(), "..") {
            out.push(i);
        }
        i = i + 1;
    }
    out
}

} // verus!
