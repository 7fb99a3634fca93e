//! Extra options read from a configuration text: one or more options per
//! line, split into words as a Unix shell would, with blank lines and
//! comment lines (starting with `#`) skipped.

use vstd::prelude::*;

use crate::text::{spec_split, split_on, texts_view};

verus! {

/// The words that `shell_words::split` makes of a line, or none when the
/// line has a quote that is not closed.
pub uninterp spec fn shell_split(line: Seq<char>) -> Option<Seq<Seq<char>>>;

/// Calls `shell_words::split`, which splits a line into words as a Unix
/// shell does (quotes, backslashes, comments), but without expanding
/// anything. What it makes of a line is named by `shell_split`. Its error
/// (a unit struct, "missing closing quote") becomes `None`.
#[verifier::external_body]
fn split_words(line: &str) -> (r: Option<Vec<String>>)
    ensures
        match r {
            Some(words) => shell_split(line@) == Some(texts_view(words@)),
            None => shell_split(line@) is None,
        },
{
    shell_words::split(line).ok()
}

/// A line of the configuration has a quote that is not closed.
#[derive(PartialEq, Eq, Debug, Clone, Copy)]
pub struct UnclosedQuote;

/// Whether a character is white space: the Unicode property `White_Space`,
/// which `str::trim` removes.
pub open spec fn is_white_space(c: char) -> bool {
    ('\u{9}' <= c && c <= '\u{d}') || c == ' ' || c == '\u{85}' || c == '\u{a0}' || c == '\u{1680}'
        || ('\u{2000}' <= c && c <= '\u{200a}') || c == '\u{2028}' || c == '\u{2029}' || c == '\u{202f}'
        || c == '\u{205f}' || c == '\u{3000}'
}

/// The index of the first character of `s[from..]` that is not white
/// space, or the length when there is none.
pub open spec fn first_solid(s: Seq<char>, from: int) -> int
    decreases s.len() - from,
{
    if from < 0 || from >= s.len() {
        s.len() as int
    } else if is_white_space(s[from]) {
        first_solid(s, from + 1)
    } else {
        from
    }
}

/// One past the index of the last character of `s[..to]` that is not white
/// space, or zero when there is none.
pub open spec fn last_solid(s: Seq<char>, to: int) -> int
    decreases to,
{
    if to <= 0 || to > s.len() {
        0
    } else if is_white_space(s[to - 1]) {
        last_solid(s, to - 1)
    } else {
        to
    }
}

/// A string without its leading and trailing white space.
pub open spec fn trimmed(s: Seq<char>) -> Seq<char> {
    let start = first_solid(s, 0);
    let end = last_solid(s, s.len() as int);
    if start >= end {
        Seq::empty()
    } else {
        s.subrange(start, end)
    }
}

fn white_space(c: char) -> (r: bool)
    ensures
        r == is_white_space(c),
{
    ('\u{9}' <= c && c <= '\u{d}') || c == ' ' || c == '\u{85}' || c == '\u{a0}' || c == '\u{1680}'
        || ('\u{2000}' <= c && c <= '\u{200a}') || c == '\u{2028}' || c == '\u{2029}' || c == '\u{202f}'
        || c == '\u{205f}' || c == '\u{3000}'
}

/// Removes leading and trailing white space, as `str::trim` does.
pub fn trim(s: &str) -> (r: String)
    ensures
        r@ == trimmed(s@),
{
    let n = s.unicode_len();
    let mut start: usize = 0;
    while start < n && white_space(s.get_char(start))
        invariant
            n == s@.len(),
            0 <= start <= n,
            first_solid(s@, 0) == first_solid(s@, start as int),
        decreases n - start,
    {
        start = start + 1;
    }
    let mut end: usize = n;
    while end > 0 && white_space(s.get_char(end - 1))
        invariant
            n == s@.len(),
            0 <= end <= n,
            last_solid(s@, n as int) == last_solid(s@, end as int),
        decreases end,
    {
        end = end - 1;
    }
    if start >= end {
        return String::new();
    }
    String::from_str(s.substring_char(start, end))
}

/// Whether a trimmed line holds options: it is not blank and not a comment.
pub open spec fn is_option_line(line: Seq<char>) -> bool {
    line.len() > 0 && line[0] != '#'
}

/// The words of `lines[..n]` once trimmed, skipping blank and comment
/// lines; none when a line has a quote that is not closed.
pub open spec fn words_of_lines(lines: Seq<Seq<char>>, n: int) -> Option<Seq<Seq<char>>>
    decreases n,
{
    if n <= 0 {
        Some(Seq::empty())
    } else {
        match words_of_lines(lines, n - 1) {
            None => None,
            Some(before) => {
                let line = trimmed(lines[n - 1]);
                if !is_option_line(line) {
                    Some(before)
                } else {
                    match shell_split(line) {
                        None => None,
                        Some(ws) => Some(before + ws),
                    }
                }
            },
        }
    }
}

/// The words of a configuration text: its lines, trimmed, without blank
/// and comment lines, each split into words as a shell would; none when a
/// line has a quote that is not closed.
pub open spec fn config_words(content: Seq<char>) -> Option<Seq<Seq<char>>> {
    let lines = spec_split(content, '\n');
    words_of_lines(lines, lines.len() as int)
}

/// Reads the options in a configuration text, in order.
pub fn get_args_from_str(content: &str) -> (r: Result<Vec<String>, UnclosedQuote>)
    ensures
        match config_words(content@) {
            Some(ws) => r is Ok && texts_view(r->Ok_0@) == ws,
            None => r is Err,
        },
{
    let lines = split_on(content, '\n');
    let ghost ls = texts_view(lines@);
    let mut args: Vec<String> = Vec::new();
    let mut i: usize = 0;
    assert(texts_view(args@) =~= Seq::<Seq<char>>::empty());
    while i < lines.len()
        invariant
            ls == texts_view(lines@),
            ls == spec_split(content@, '\n'),
            0 <= i <= lines@.len(),
            words_of_lines(ls, i as int) == Some(texts_view(args@)),
        decreases lines@.len() - i,
    {
        assert(lines@[i as int]@ == ls[i as int]);
        let line = trim(lines[i].as_str());
        let n = line.unicode_len();
        if n > 0 && line.get_char(0) != '#' {
            match split_words(line.as_str()) {
                Some(words) => {
                    let ghost before = texts_view(args@);
                    let mut k: usize = 0;
                    while k < words.len()
                        invariant
                            0 <= k <= words@.len(),
                            texts_view(args@) == before + texts_view(words@).subrange(0, k as int),
                        decreases words@.len() - k,
                    {
                        let ghost prev = texts_view(args@);
                        let w = String::from_str(words[k].as_str());
                        assert(w@ == texts_view(words@)[k as int]);
                        args.push(w);
                        assert(texts_view(args@) =~= prev.push(texts_view(words@)[k as int]));
                        assert(texts_view(args@) =~= before + texts_view(words@).subrange(0, k + 1));
                        k = k + 1;
                    }
                    assert(texts_view(words@).subrange(0, words@.len() as int) =~= texts_view(words@));
                },
                None => {
                    proof {
                        lemma_words_stay_none(ls, i as int + 1, lines@.len() as int);
                    }
                    return Err(UnclosedQuote);
                },
            }
        }
        i = i + 1;
    }
    Ok(args)
}

proof fn lemma_words_stay_none(lines: Seq<Seq<char>>, from: int, to: int)
    requires
        0 <= from <= to,
        words_of_lines(lines, from) is None,
    ensures
        words_of_lines(lines, to) is None,
    decreases to - from,
{
    if from < to {
        lemma_words_stay_none(lines, from, to - 1);
    }
}

} // verus!
