//! Natural sort order: "9" before "10".
//!
//! An input string is split into parts, each either a run of digits or a
//! run of other characters, and strings are compared part by part. A
//! `SortPart` derives `Ord`, so a `Vec<SortPart>` compares naturally.

use vstd::prelude::*;
use vstd::string::StrSliceExecFns;

use crate::text::push_char;

verus! {

/// A part of a string, for natural sorting: a number, or lowercased text.
#[derive(PartialEq, Eq, PartialOrd, Ord, Debug, Clone)]
pub enum SortPart {
    Numeric(u64),
    Stringular(String),
}

/// A sort part, with its text as a sequence and its number unbounded.
pub enum PartView {
    Numeric(nat),
    Stringular(Seq<char>),
}

impl View for SortPart {
    type V = PartView;

    open spec fn view(&self) -> PartView {
        match self {
            SortPart::Numeric(n) => PartView::Numeric(*n as nat),
            SortPart::Stringular(s) => PartView::Stringular(s@),
        }
    }
}

/// Whether a character is an ASCII decimal digit.
pub open spec fn is_digit(c: char) -> bool {
    '0' <= c <= '9'
}

/// The value of a string of decimal digits.
pub open spec fn digits_value(s: Seq<char>) -> nat
    decreases s.len(),
{
    if s.len() == 0 {
        0
    } else {
        digits_value(s.drop_last()) * 10 + (s.last() as nat - 48) as nat
    }
}

/// A character in ASCII lowercase.
pub open spec fn lower(c: char) -> char {
    if 'A' <= c <= 'Z' { ((c as u32) + 32) as char } else { c }
}

/// A string in ASCII lowercase.
pub open spec fn lowercase(s: Seq<char>) -> Seq<char> {
    Seq::new(s.len(), |i: int| lower(s[i]))
}

/// The part made of a run of characters: a number for a run of digits, and
/// the lowercased text otherwise.
pub open spec fn make_part(digits: bool, run: Seq<char>) -> PartView {
    if digits { PartView::Numeric(digits_value(run)) } else { PartView::Stringular(lowercase(run)) }
}

/// The parts of `s[start..]`, given that `s[start..i]` is a run of digits
/// (when `digits`) or of other characters.
pub open spec fn parts_from(s: Seq<char>, start: int, i: int, digits: bool) -> Seq<PartView>
    decreases s.len() - i,
{
    if i < 0 || i >= s.len() {
        seq![make_part(digits, s.subrange(start, s.len() as int))]
    } else if is_digit(s[i]) != digits {
        seq![make_part(digits, s.subrange(start, i))] + parts_from(s, i, i + 1, !digits)
    } else {
        parts_from(s, start, i + 1, digits)
    }
}

/// The parts of a string: its maximal runs of digits and of other
/// characters, in order.
pub open spec fn spec_parts(s: Seq<char>) -> Seq<PartView> {
    if s.len() == 0 { Seq::empty() } else { parts_from(s, 0, 1, is_digit(s[0])) }
}

/// Every run of digits in the string fits in a `u64`.
pub open spec fn numbers_fit(s: Seq<char>) -> bool {
    forall|k: int| 0 <= k < spec_parts(s).len() ==>
        (#[trigger] spec_parts(s)[k] matches PartView::Numeric(n) ==> n <= u64::MAX)
}

/// A prefix of a string of digits is worth no more than the whole.
pub proof fn lemma_prefix_value(s: Seq<char>, k: int)
    requires
        0 <= k <= s.len(),
    ensures
        digits_value(s.subrange(0, k)) <= digits_value(s),
    decreases s.len() - k,
{
    if k < s.len() {
        lemma_prefix_value(s, k + 1);
        assert(s.subrange(0, k + 1).drop_last() =~= s.subrange(0, k));
        assert(digits_value(s.subrange(0, k + 1)) >= digits_value(s.subrange(0, k)));
    } else {
        assert(s.subrange(0, k) =~= s);
    }
}

fn lowercase_string(s: &str) -> (r: String)
    ensures
        r@ == lowercase(s@),
{
    let n = s.unicode_len();
    let mut r = String::new();
    let mut i: usize = 0;
    while i < n
        invariant
            n == s@.len(),
            0 <= i <= n,
            r@ == lowercase(s@.subrange(0, i as int)),
        decreases n - i,
    {
        let c = s.get_char(i);
        let l = if 'A' <= c && c <= 'Z' { ((c as u32) + 32) as u8 as char } else { c };
        assert(l == lower(c)) by {
            if 'A' <= c && c <= 'Z' {
                assert((c as u32) + 32 < 256);
            }
        }
        push_char(&mut r, l);
        i = i + 1;
        assert(r@ =~= lowercase(s@.subrange(0, i as int)));
    }
    assert(s@.subrange(0, n as int) =~= s@);
    r
}

fn digits_number(s: &str) -> (r: u64)
    requires
        forall|i: int| 0 <= i < s@.len() ==> is_digit(#[trigger] s@[i]),
        digits_value(s@) <= u64::MAX,
    ensures
        r == digits_value(s@),
{
    let n = s.unicode_len();
    let mut v: u64 = 0;
    let mut i: usize = 0;
    while i < n
        invariant
            n == s@.len(),
            0 <= i <= n,
            forall|j: int| 0 <= j < s@.len() ==> is_digit(#[trigger] s@[j]),
            digits_value(s@) <= u64::MAX,
            v == digits_value(s@.subrange(0, i as int)),
        decreases n - i,
    {
        let c = s.get_char(i);
        proof {
            lemma_prefix_value(s@, i + 1);
            assert(s@.subrange(0, i + 1).drop_last() =~= s@.subrange(0, i as int));
        }
        v = v * 10 + ((c as u32) - 48) as u64;
        i = i + 1;
    }
    assert(s@.subrange(0, n as int) =~= s@);
    v
}

impl SortPart {
    /// The part made of a run of characters: a number for a run of digits,
    /// and the lowercased text otherwise.
    pub fn from_string(is_digit: bool, slice: &str) -> (r: SortPart)
        requires
            is_digit ==> forall|i: int| 0 <= i < slice@.len() ==> crate::sort::is_digit(#[trigger] slice@[i]),
            is_digit ==> digits_value(slice@) <= u64::MAX,
        ensures
            r@ == make_part(is_digit, slice@),
    {
        if is_digit {
            SortPart::Numeric(digits_number(slice))
        } else {
            SortPart::Stringular(lowercase_string(slice))
        }
    }

    /// Splits a string into its parts: its maximal runs of digits and of
    /// other characters, in order. Every run of digits must fit in a `u64`.
    pub fn split_into_parts(input: &str) -> (r: Vec<SortPart>)
        requires
            numbers_fit(input@),
        ensures
            r@.map_values(|p: SortPart| p@) == spec_parts(input@),
    {
        let n = input.unicode_len();
        let mut parts: Vec<SortPart> = Vec::new();
        if n == 0 {
            assert(parts@.map_values(|p: SortPart| p@) =~= spec_parts(input@));
            return parts;
        }
        let ghost s = input@;
        let mut digits = {
            let c = input.get_char(0);
            '0' <= c && c <= '9'
        };
        let mut start: usize = 0;
        let mut i: usize = 1;
        while i < n
            invariant
                s == input@,
                n == s.len(),
                n > 0,
                0 <= start < i <= n,
                numbers_fit(s),
                forall|j: int| start <= j < i ==> is_digit(#[trigger] s[j]) == digits,
                parts@.map_values(|p: SortPart| p@) + parts_from(s, start as int, i as int, digits) == spec_parts(s),
            decreases n - i,
        {
            let c = input.get_char(i);
            let d = '0' <= c && c <= '9';
            if d != digits {
                let piece = input.substring_char(start, i);
                proof {
                    assert(parts_from(s, start as int, i as int, digits)
                        == seq![make_part(digits, s.subrange(start as int, i as int))] + parts_from(s, i as int, i + 1, !digits));
                    let k = parts@.len() as int;
                    assert(spec_parts(s)[k] == make_part(digits, s.subrange(start as int, i as int)));
                }
                let part = SortPart::from_string(digits, piece);
                let ghost before = parts@.map_values(|p: SortPart| p@);
                parts.push(part);
                assert(parts@.map_values(|p: SortPart| p@) =~= before.push(make_part(digits, s.subrange(start as int, i as int))));
                start = i;
                digits = d;
            }
            i = i + 1;
        }
        let piece = input.substring_char(start, n);
        proof {
            let k = parts@.len() as int;
            assert(parts_from(s, start as int, n as int, digits) == seq![make_part(digits, s.subrange(start as int, n as int))]);
            assert(spec_parts(s)[k] == make_part(digits, s.subrange(start as int, n as int)));
        }
        let part = SortPart::from_string(digits, piece);
        let ghost before = parts@.map_values(|p: SortPart| p@);
        parts.push(part);
        assert(parts@.map_values(|p: SortPart| p@) =~= before.push(make_part(digits, s.subrange(start as int, n as int))));
        parts
    }
}

} // verus!
