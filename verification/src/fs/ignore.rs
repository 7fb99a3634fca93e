//! Ignoring the globs listed in `.gitignore` files.
//!
//! A cache holds the patterns of each `.gitignore` file found, with the
//! directory it was found in: the patterns apply to the paths under that
//! directory. Reading the files is left to the caller.

use vstd::prelude::*;

use vstd::utf8::{decode_utf8, valid_utf8};

use crate::fs::filter::{ignores, valid_globs, IgnorePatterns};
use crate::fs::path::{comps, path_starts_with, starts_with};
use crate::text::{is_utf8, lossy_string, texts_view};

verus! {

/// Whether a line of an ignore file holds a pattern: it is not blank and
/// not a comment (a line starting with `#`).
pub open spec fn is_pattern_line(line: Seq<char>) -> bool {
    line.len() > 0 && line[0] != '#'
}

/// The lines among `lines[..n]` that hold patterns, in order.
pub open spec fn pattern_lines(lines: Seq<Seq<char>>, n: int) -> Seq<Seq<char>>
    decreases n,
{
    if n <= 0 {
        Seq::empty()
    } else if is_pattern_line(lines[n - 1]) {
        pattern_lines(lines, n - 1).push(lines[n - 1])
    } else {
        pattern_lines(lines, n - 1)
    }
}

/// The patterns that the lines of an ignore file give: those of the lines
/// holding patterns that are valid globs.
pub open spec fn patterns_of_lines(lines: Seq<Seq<char>>) -> Seq<Seq<char>> {
    let kept = pattern_lines(lines, lines.len() as int);
    valid_globs(kept, kept.len() as int)
}

/// Turns the lines of an ignore file into patterns: blank lines and
/// comments are skipped, and lines that are not valid globs are dropped.
/// Whitespace is kept as it is.
pub fn file_lines_to_patterns(lines: &Vec<String>) -> (r: IgnorePatterns)
    ensures
        r@ == patterns_of_lines(texts_view(lines@)),
{
    let ghost ls = texts_view(lines@);
    let mut kept: Vec<String> = Vec::new();
    let mut i: usize = 0;
    while i < lines.len()
        invariant
            ls == texts_view(lines@),
            0 <= i <= lines@.len(),
            texts_view(kept@) == pattern_lines(ls, i as int),
        decreases lines@.len() - i,
    {
        let line = lines[i].as_str();
        assert(line@ == ls[i as int]);
        let n = line.unicode_len();
        if n > 0 && line.get_char(0) != '#' {
            let ghost before = texts_view(kept@);
            kept.push(String::from_str(line));
            assert(texts_view(kept@) =~= before.push(ls[i as int]));
        }
        i = i + 1;
    }
    IgnorePatterns::parse_from_iter(&kept).0
}

/// The bytes of a path whose components are `cs`, joined with `/`.
pub open spec fn joined_path(cs: Seq<Seq<u8>>) -> Seq<u8>
    decreases cs.len(),
{
    if cs.len() == 0 {
        Seq::empty()
    } else if cs.len() == 1 {
        cs[0]
    } else {
        joined_path(cs.drop_last()) + seq![47u8] + cs.last()
    }
}

/// The bytes of the path made of the components `cs[from..]`.
fn join_path(cs: &Vec<Vec<u8>>, from: usize) -> (r: Vec<u8>)
    requires
        from <= cs@.len(),
    ensures
        r@ == joined_path(comps(cs@).subrange(from as int, cs@.len() as int)),
{
    let mut out: Vec<u8> = Vec::new();
    let mut k: usize = from;
    assert(comps(cs@).subrange(from as int, from as int).len() == 0);
    while k < cs.len()
        invariant
            from <= k <= cs@.len(),
            out@ == joined_path(comps(cs@).subrange(from as int, k as int)),
        decreases cs@.len() - k,
    {
        let ghost before = comps(cs@).subrange(from as int, k as int);
        let ghost after = comps(cs@).subrange(from as int, k + 1);
        assert(after.drop_last() =~= before);
        assert(after.last() == cs@[k as int]@);
        if k > from {
            out.push(47u8);
        }
        let c = &cs[k];
        let mut j: usize = 0;
        let ghost start = out@;
        while j < c.len()
            invariant
                j <= c@.len(),
                out@ == start + c@.subrange(0, j as int),
            decreases c@.len() - j,
        {
            out.push(c[j]);
            assert(c@.subrange(0, j + 1) =~= c@.subrange(0, j as int).push(c@[j as int]));
            assert(out@ =~= start + c@.subrange(0, j + 1));
            j = j + 1;
        }
        assert(c@.subrange(0, c@.len() as int) =~= c@);
        proof {
            if k == from {
                assert(after.len() == 1);
                assert(out@ =~= after[0]);
            } else {
                assert(out@ =~= joined_path(before) + seq![47u8] + after.last());
            }
        }
        k = k + 1;
    }
    out
}

/// Whether the patterns `patterns`, found in the directory `base`, hide the
/// path `suspect`: it is under `base`, and a pattern matches the rest of its
/// path. A rest that is not UTF-8 matches no pattern.
pub open spec fn entry_ignores(base: Seq<Seq<u8>>, patterns: Seq<Seq<char>>, suspect: Seq<Seq<u8>>) -> bool {
    path_starts_with(suspect, base) && {
        let rest = joined_path(suspect.subrange(base.len() as int, suspect.len() as int));
        valid_utf8(rest) && ignores(patterns, decode_utf8(rest))
    }
}

/// The patterns of the `.gitignore` files found, each with the directory
/// it was found in.
pub struct IgnoreCache {
    /// Each directory, as its components, with the patterns of its
    /// `.gitignore` file.
    pub entries: Vec<(Vec<Vec<u8>>, IgnorePatterns)>,
}

impl IgnoreCache {
    /// The directories and their patterns, as plain values.
    pub open spec fn view_entries(&self) -> Seq<(Seq<Seq<u8>>, Seq<Seq<char>>)> {
        self.entries@.map_values(|e: (Vec<Vec<u8>>, IgnorePatterns)| (comps(e.0@), e.1@))
    }

    /// A cache with no patterns.
    pub fn new() -> (r: IgnoreCache)
        ensures
            r.entries@.len() == 0,
    {
        IgnoreCache { entries: Vec::new() }
    }

    /// The directories in which `.gitignore` files apply to `path`: the path
    /// itself and each directory above it, nearest first.
    pub fn search_dirs(path: &Vec<Vec<u8>>) -> (r: Vec<Vec<Vec<u8>>>)
        ensures
            r@.len() == path@.len(),
            forall|i: int| 0 <= i < r@.len() ==> #[trigger] comps(r@[i]@) == comps(path@).subrange(0, path@.len() - i),
    {
        let mut r: Vec<Vec<Vec<u8>>> = Vec::new();
        let mut n: usize = path.len();
        while n > 0
            invariant
                n <= path@.len(),
                r@.len() == path@.len() - n,
                forall|i: int| 0 <= i < r@.len() ==> #[trigger] comps(r@[i]@) == comps(path@).subrange(0, path@.len() - i),
            decreases n,
        {
            let mut dir: Vec<Vec<u8>> = Vec::new();
            let mut k: usize = 0;
            while k < n
                invariant
                    k <= n <= path@.len(),
                    comps(dir@) == comps(path@).subrange(0, k as int),
                decreases n - k,
            {
                let c = path[k].clone();
                assert(c@ =~= path@[k as int]@);
                let ghost before = dir@;
                dir.push(c);
                assert(comps(dir@) =~= comps(before).push(c@));
                assert(comps(dir@) =~= comps(path@).subrange(0, k + 1));
                k = k + 1;
            }
            let ghost before = r@;
            r.push(dir);
            assert forall|i: int| 0 <= i < r@.len() implies #[trigger] comps(r@[i]@) == comps(path@).subrange(0, path@.len() - i) by {
                if i < before.len() {
                    assert(r@[i] == before[i]);
                }
            }
            n = n - 1;
        }
        r
    }

    /// Records the lines of the `.gitignore` file found in `dir`: their
    /// patterns apply under it from now on.
    pub fn add_ignore_file(&mut self, dir: Vec<Vec<u8>>, lines: &Vec<String>)
        ensures
            final(self).view_entries() == old(self).view_entries().push(
                (comps(dir@), patterns_of_lines(texts_view(lines@))),
            ),
    {
        let patterns = file_lines_to_patterns(lines);
        let ghost before = self.view_entries();
        let ghost d = comps(dir@);
        let ghost p = patterns@;
        self.entries.push((dir, patterns));
        assert(self.view_entries() =~= before.push((d, p)));
    }

    /// Whether the patterns of any `.gitignore` file hide `suspect`.
    pub fn is_ignored(&self, suspect: &Vec<Vec<u8>>) -> (r: bool)
        ensures
            r == exists|i: int| 0 <= i < self.view_entries().len()
                && #[trigger] entry_ignores(self.view_entries()[i].0, self.view_entries()[i].1, comps(suspect@)),
    {
        let ghost es = self.view_entries();
        let mut i: usize = 0;
        while i < self.entries.len()
            invariant
                i <= self.entries@.len(),
                es == self.view_entries(),
                es.len() == self.entries@.len(),
                forall|k: int| 0 <= k < i ==> !#[trigger] entry_ignores(es[k].0, es[k].1, comps(suspect@)),
            decreases self.entries@.len() - i,
        {
            let base = &self.entries[i].0;
            let patterns = &self.entries[i].1;
            assert(es[i as int] == (comps(base@), patterns@));
            if starts_with(suspect, base) {
                let rest = join_path(suspect, base.len());
                if is_utf8(rest.as_slice()) {
                    let text = lossy_string(rest.as_slice());
                    if patterns.is_ignored(text.as_str()) {
                        assert(entry_ignores(es[i as int].0, es[i as int].1, comps(suspect@)));
                        return true;
                    }
                }
            }
            i = i + 1;
        }
        false
    }
}

} // verus!
