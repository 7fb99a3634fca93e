//! What a file's name says about it: its extension, and whether it is a
//! dotfile or a temporary file.

use vstd::prelude::*;

use crate::text::push_char;

verus! {

/// The index of the last occurrence of `c` in `s`, if there is one.
pub open spec fn last_index_of(s: Seq<char>, c: char) -> Option<nat>
    decreases s.len(),
{
    if s.len() == 0 {
        None
    } else if s.last() == c {
        Some((s.len() - 1) as nat)
    } else {
        last_index_of(s.drop_last(), c)
    }
}

/// A character with ASCII upper-case letters turned to lower case.
pub open spec fn ascii_lower(c: char) -> char {
    if 'A' <= c && c <= 'Z' {
        ((c as u32) + 32) as char
    } else {
        c
    }
}

/// The characters of `s` with ASCII upper-case letters turned to lower case.
pub open spec fn ascii_lowercase(s: Seq<char>) -> Seq<char> {
    s.map_values(|c: char| ascii_lower(c))
}

/// A file's extension: everything after the last dot of its name, in
/// ASCII lower case. Dotfiles count: `.vimrc` has the extension `vimrc`.
pub open spec fn extension_of(name: Seq<char>) -> Option<Seq<char>> {
    match last_index_of(name, '.') {
        Some(i) => Some(ascii_lowercase(name.subrange(i as int + 1, name.len() as int))),
        None => None,
    }
}

pub proof fn lemma_last_index_of(s: Seq<char>, c: char, i: int)
    requires
        0 <= i <= s.len(),
        forall|j: int| i <= j < s.len() ==> s[j] != c,
    ensures
        last_index_of(s, c) == last_index_of(s.subrange(0, i), c),
    decreases s.len() - i,
{
    if i < s.len() {
        assert(s.drop_last() =~= s.subrange(0, s.len() - 1));
        lemma_last_index_of(s.drop_last(), c, i);
        assert(s.drop_last().subrange(0, i) =~= s.subrange(0, i));
    } else {
        assert(s.subrange(0, i) =~= s);
    }
}

pub(crate) fn lower_char(c: char) -> (r: char)
    ensures
        r == ascii_lower(c),
{
    if 'A' <= c && c <= 'Z' {
        ((c as u8) + 32) as char
    } else {
        c
    }
}

/// The extension of a file name: the part after its last dot, lower-cased.
pub fn ext(name: &str) -> (r: Option<String>)
    ensures
        match r {
            Some(e) => extension_of(name@) == Some(e@),
            None => extension_of(name@) is None,
        },
{
    let len = name.unicode_len();
    let mut i: usize = len;
    while i > 0
        invariant
            i <= len,
            len == name@.len(),
            forall|j: int| i <= j < len ==> name@[j] != '.',
        ensures
            i <= len,
            forall|j: int| i <= j < len ==> name@[j] != '.',
            i == 0 || name@[i - 1] == '.',
        decreases i,
    {
        if name.get_char(i - 1) == '.' {
            break;
        }
        i = i - 1;
    }
    proof {
        lemma_last_index_of(name@, '.', i as int);
    }
    if i == 0 {
        assert(name@.subrange(0, 0).len() == 0);
        return None;
    }
    let ghost dot = (i - 1) as int;
    assert(name@.subrange(0, i as int).last() == '.');
    assert(last_index_of(name@.subrange(0, i as int), '.') == Some(dot as nat));
    let mut out = String::new();
    let mut k: usize = i;
    while k < len
        invariant
            i <= k <= len,
            len == name@.len(),
            out@ == ascii_lowercase(name@.subrange(i as int, k as int)),
        decreases len - k,
    {
        let c = name.get_char(k);
        push_char(&mut out, lower_char(c));
        proof {
            assert(name@.subrange(i as int, k + 1) =~= name@.subrange(i as int, k as int).push(c));
        }
        k = k + 1;
    }
    assert(out@ =~= ascii_lowercase(name@.subrange(dot + 1, name@.len() as int)));
    Some(out)
}

/// Whether a file name starts with a dot.
pub open spec fn is_dotfile_name(name: Seq<char>) -> bool {
    name.len() > 0 && name[0] == '.'
}

/// Whether a file name marks a temporary file: it ends with a tilde, or
/// starts and ends with a hash.
pub open spec fn is_tmpfile_name(name: Seq<char>) -> bool {
    (name.len() > 0 && name.last() == '~') || (name.len() > 0 && name[0] == '#' && name.last()
        == '#')
}

/// Whether this file is a dotfile.
pub fn is_dotfile(name: &str) -> (r: bool)
    ensures
        r == is_dotfile_name(name@),
{
    let len = name.unicode_len();
    len > 0 && name.get_char(0) == '.'
}

/// Whether this file is a temporary file (an editor backup or autosave).
pub fn is_tmpfile(name: &str) -> (r: bool)
    ensures
        r == is_tmpfile_name(name@),
{
    let len = name.unicode_len();
    if len == 0 {
        return false;
    }
    let last = name.get_char(len - 1);
    last == '~' || (name.get_char(0) == '#' && last == '#')
}


proof fn lemma_last_index_found(s: Seq<char>, c: char)
    ensures
        match last_index_of(s, c) {
            Some(i) => i < s.len() && s[i as int] == c && forall|j: int| i < j < s.len() ==> s[j] != c,
            None => forall|j: int| 0 <= j < s.len() ==> s[j] != c,
        },
    decreases s.len(),
{
    if s.len() > 0 && s.last() != c {
        let t = s.drop_last();
        lemma_last_index_found(t, c);
        assert forall|j: int| 0 <= j < t.len() implies t[j] == s[j] by {}
        assert(s[s.len() - 1] != c);
    }
}

/// A file's extension never holds a dot, and is whatever follows the last
/// dot of its name, so a name with no dot has no extension.
pub proof fn law_extension_follows_last_dot(name: Seq<char>)
    ensures
        match extension_of(name) {
            Some(e) => exists|i: int|
                0 <= i < name.len() && name[i] == '.' && e == ascii_lowercase(name.subrange(i + 1, name.len() as int))
                    && forall|k: int| 0 <= k < e.len() ==> e[k] != '.',
            None => forall|j: int| 0 <= j < name.len() ==> name[j] != '.',
        },
{
    lemma_last_index_found(name, '.');
    if let Some(i) = last_index_of(name, '.') {
        let e = ascii_lowercase(name.subrange(i as int + 1, name.len() as int));
        assert forall|k: int| 0 <= k < e.len() implies e[k] != '.' by {
            assert(name[i + 1 + k] != '.');
        }
        assert(name[i as int] == '.');
    }
}

} // verus!
