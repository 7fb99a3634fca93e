//! Text helpers: building and splitting strings.

use vstd::prelude::*;
use vstd::string::StrSliceExecFns;
use vstd::utf8::{decode_utf8, encode_utf8, valid_utf8};

verus! {

/// The text that `String::from_utf8_lossy` makes of some bytes: the bytes
/// decoded as UTF-8, with each invalid sequence replaced by U+FFFD.
pub uninterp spec fn utf8_lossy(b: Seq<u8>) -> Seq<char>;

/// Calls `String::from_utf8_lossy`. Its result is named by `utf8_lossy`; for
/// bytes that are valid UTF-8 it is their decoding, as std documents. What it
/// makes of invalid bytes is left to the name.
#[verifier::external_body]
pub(crate) fn lossy_string(b: &[u8]) -> (r: String)
    ensures
        r@ == utf8_lossy(b@),
        valid_utf8(b@) ==> r@ == decode_utf8(b@),
{
    String::from_utf8_lossy(b).into_owned()
}

/// Calls `std::str::from_utf8` and reports whether it succeeded, which it
/// does exactly when the bytes are valid UTF-8.
#[verifier::external_body]
pub(crate) fn is_utf8(b: &[u8]) -> (r: bool)
    ensures
        r == valid_utf8(b@),
{
    std::str::from_utf8(b).is_ok()
}

/// Calls `String::push`, which appends one character.
#[verifier::external_body]
pub(crate) fn push_char(s: &mut String, c: char)
    ensures
        final(s)@ == old(s)@.push(c),
{
    s.push(c);
}

/// The pieces of `s[start..]` between occurrences of `sep`, given that the
/// current piece started at `start` and `s[start..i]` holds no `sep`.
pub open spec fn split_from(s: Seq<char>, sep: char, start: int, i: int) -> Seq<Seq<char>>
    decreases s.len() - i,
{
    if i < 0 || i >= s.len() {
        seq![s.subrange(start, s.len() as int)]
    } else if s[i] == sep {
        seq![s.subrange(start, i)] + split_from(s, sep, i + 1, i + 1)
    } else {
        split_from(s, sep, start, i + 1)
    }
}

/// The pieces of `s` between occurrences of `sep`, as `str::split` gives
/// them: there is always one more piece than there are separators.
pub open spec fn spec_split(s: Seq<char>, sep: char) -> Seq<Seq<char>> {
    split_from(s, sep, 0, 0)
}

/// A list of strings as a sequence of character sequences.
pub open spec fn texts_view(v: Seq<String>) -> Seq<Seq<char>> {
    v.map_values(|x: String| x@)
}

/// Splits `s` on every occurrence of `sep`.
pub fn split_on(s: &str, sep: char) -> (r: Vec<String>)
    ensures
        texts_view(r@) == spec_split(s@, sep),
{
    let n = s.unicode_len();
    let mut pieces: Vec<String> = Vec::new();
    let mut start: usize = 0;
    let mut i: usize = 0;
    while i < n
        invariant
            n == s@.len(),
            0 <= start <= i <= n,
            texts_view(pieces@) + split_from(s@, sep, start as int, i as int) == spec_split(s@, sep),
        decreases n - i,
    {
        let c = s.get_char(i);
        if c == sep {
            let piece = String::from_str(s.substring_char(start, i));
            let ghost before = texts_view(pieces@);
            pieces.push(piece);
            assert(texts_view(pieces@) =~= before.push(s@.subrange(start as int, i as int)));
            assert(texts_view(pieces@) + split_from(s@, sep, (i + 1) as int, (i + 1) as int)
                =~= before + split_from(s@, sep, start as int, i as int));
            start = i + 1;
        }
        i = i + 1;
    }
    let piece = String::from_str(s.substring_char(start, n));
    let ghost before = texts_view(pieces@);
    pieces.push(piece);
    assert(texts_view(pieces@) =~= before + split_from(s@, sep, start as int, i as int));
    pieces
}


/// Whether two strings hold the same characters.
pub fn str_eq(a: &str, b: &str) -> (r: bool)
    ensures
        r == (a@ == b@),
{
    let n = a.unicode_len();
    if n != b.unicode_len() {
        return false;
    }
    let mut i: usize = 0;
    while i < n
        invariant
            n == a@.len(),
            n == b@.len(),
            0 <= i <= n,
            forall|j: int| 0 <= j < i ==> a@[j] == b@[j],
        decreases n - i,
    {
        if a.get_char(i) != b.get_char(i) {
            return false;
        }
        i = i + 1;
    }
    assert(a@ =~= b@);
    true
}


/// The chunks that `<[u8]>::utf8_chunks` splits bytes into, in order: each
/// is a run of valid UTF-8, decoded, followed by a run of bytes that are
/// not valid UTF-8.
pub uninterp spec fn utf8_chunks_of(b: Seq<u8>) -> Seq<(Seq<char>, Seq<u8>)>;

/// The bytes of chunks, put back together: each valid part encoded as
/// UTF-8, followed by its invalid bytes.
pub open spec fn chunks_bytes(cs: Seq<(Seq<char>, Seq<u8>)>) -> Seq<u8>
    decreases cs.len(),
{
    if cs.len() == 0 {
        Seq::empty()
    } else {
        chunks_bytes(cs.drop_last()) + encode_utf8(cs.last().0) + cs.last().1
    }
}

/// Calls `<[u8]>::utf8_chunks`, keeping each chunk's valid part (as text)
/// and invalid part. How the bytes are cut is left to `utf8_chunks_of`;
/// as std documents, the chunks put back together are the input.
#[verifier::external_body]
pub(crate) fn utf8_chunks(b: &[u8]) -> (r: Vec<(String, Vec<u8>)>)
    ensures
        r@.map_values(|c: (String, Vec<u8>)| (c.0@, c.1@)) == utf8_chunks_of(b@),
        chunks_bytes(r@.map_values(|c: (String, Vec<u8>)| (c.0@, c.1@))) == b@,
{
    b.utf8_chunks().map(|c| (c.valid().to_string(), c.invalid().to_vec())).collect()
}

/// What `char::escape_debug` makes of a character: the character itself,
/// or an escape such as `\n`, `\'` or `\u{301}`.
pub uninterp spec fn escape_debug_of(c: char) -> Seq<char>;

/// Calls `char::escape_debug`. Its result is named by `escape_debug_of`.
#[verifier::external_body]
pub(crate) fn escape_debug(c: char) -> (r: String)
    ensures
        r@ == escape_debug_of(c),
{
    c.escape_debug().to_string()
}

/// What the `Debug` format of a string is: the string in double quotes,
/// with the characters that need it escaped.
pub uninterp spec fn str_debug_of(s: Seq<char>) -> Seq<char>;

/// Writes a string with the `Debug` format. Its result is named by
/// `str_debug_of`.
#[verifier::external_body]
pub(crate) fn str_debug(s: &str) -> (r: String)
    ensures
        r@ == str_debug_of(s@),
{
    format!("{:?}", s)
}

/// The characters of `s[..n]`, each escaped as `char::escape_debug` does.
pub open spec fn escaped_chars(s: Seq<char>, n: int) -> Seq<char>
    decreases n,
{
    if n <= 0 {
        Seq::empty()
    } else {
        escaped_chars(s, n - 1) + escape_debug_of(s[n - 1])
    }
}

/// An upper-case hexadecimal digit.
pub open spec fn hex_digit(d: nat) -> char {
    if d < 10 {
        (d + 48) as char
    } else {
        (d + 55) as char
    }
}

/// The bytes of `b[..n]`, each written as `\x` and two upper-case
/// hexadecimal digits.
pub open spec fn hex_escapes(b: Seq<u8>, n: int) -> Seq<char>
    decreases n,
{
    if n <= 0 {
        Seq::empty()
    } else {
        hex_escapes(b, n - 1) + seq!['\\', 'x', hex_digit((b[n - 1] / 16) as nat), hex_digit((b[n - 1] % 16) as nat)]
    }
}

/// The chunks `cs[..n]`, their valid parts escaped and their invalid bytes
/// written in hexadecimal.
pub open spec fn chunks_debug(cs: Seq<(Seq<char>, Seq<u8>)>, n: int) -> Seq<char>
    decreases n,
{
    if n <= 0 {
        Seq::empty()
    } else {
        chunks_debug(cs, n - 1) + escaped_chars(cs[n - 1].0, cs[n - 1].0.len() as int) + hex_escapes(
            cs[n - 1].1,
            cs[n - 1].1.len() as int,
        )
    }
}

/// The `Debug` format of a byte string that stands for an OS string: in
/// double quotes, its valid UTF-8 parts escaped character by character and
/// its other bytes written as `\xNN`.
pub open spec fn bytes_debug_of(b: Seq<u8>) -> Seq<char> {
    let cs = utf8_chunks_of(b);
    seq!['"'] + chunks_debug(cs, cs.len() as int) + seq!['"']
}

fn hex_digit_exec(d: u8) -> (r: char)
    requires
        d < 16,
    ensures
        r == hex_digit(d as nat),
{
    if d < 10 {
        (d + 48) as char
    } else {
        (d + 55) as char
    }
}

/// Writes a byte string, which stands for an OS string, in the `Debug`
/// format of an OS string.
pub fn bytes_debug(b: &[u8]) -> (r: String)
    ensures
        r@ == bytes_debug_of(b@),
{
    let chunks = utf8_chunks(b);
    let ghost cs = utf8_chunks_of(b@);
    let mut out = String::new();
    push_char(&mut out, '"');
    let mut k: usize = 0;
    while k < chunks.len()
        invariant
            chunks@.map_values(|c: (String, Vec<u8>)| (c.0@, c.1@)) == cs,
            0 <= k <= chunks@.len(),
            out@ == seq!['"'] + chunks_debug(cs, k as int),
        decreases chunks@.len() - k,
    {
        let valid = chunks[k].0.as_str();
        let invalid = &chunks[k].1;
        assert(valid@ == cs[k as int].0);
        assert(invalid@ == cs[k as int].1);
        let n = valid.unicode_len();
        let mut i: usize = 0;
        let ghost base = out@;
        while i < n
            invariant
                n == valid@.len(),
                0 <= i <= n,
                out@ == base + escaped_chars(valid@, i as int),
            decreases n - i,
        {
            let e = escape_debug(valid.get_char(i));
            out.append(e.as_str());
            assert(out@ =~= base + escaped_chars(valid@, i + 1));
            i = i + 1;
        }
        let ghost mid = out@;
        let mut j: usize = 0;
        while j < invalid.len()
            invariant
                0 <= j <= invalid@.len(),
                out@ == mid + hex_escapes(invalid@, j as int),
            decreases invalid@.len() - j,
        {
            let byte = invalid[j];
            push_char(&mut out, '\\');
            push_char(&mut out, 'x');
            push_char(&mut out, hex_digit_exec(byte / 16));
            push_char(&mut out, hex_digit_exec(byte % 16));
            assert(out@ =~= mid + hex_escapes(invalid@, j + 1));
            j = j + 1;
        }
        assert(out@ =~= seq!['"'] + chunks_debug(cs, k + 1));
        k = k + 1;
    }
    push_char(&mut out, '"');
    assert(out@ =~= bytes_debug_of(b@));
    out
}

} // verus!
