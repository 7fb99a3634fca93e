//! The order in which files are listed: comparing two files by the field
//! chosen to sort by.

use vstd::prelude::*;

use std::cmp::Ordering;

use crate::fs::fields::{Time, Type};
use crate::fs::filter::{SortCase, SortField};

verus! {

/// The natural order of two names that `natord::compare` gives: runs of
/// digits are compared as numbers, whitespace is skipped, and other
/// characters are compared one by one.
pub uninterp spec fn natural_order(a: Seq<char>, b: Seq<char>) -> Ordering;

/// The natural order of two names that `natord::compare_ignore_case` gives:
/// the same as `natural_order`, on the names in lower case.
pub uninterp spec fn natural_order_ignoring_case(a: Seq<char>, b: Seq<char>) -> Ordering;

/// Calls `natord::compare`. Its result is named by `natural_order`.
#[verifier::external_body]
fn natural_compare(a: &str, b: &str) -> (r: Ordering)
    ensures
        r == natural_order(a@, b@),
{
    natord::compare(a, b)
}

/// Calls `natord::compare_ignore_case`. Its result is named by
/// `natural_order_ignoring_case`.
#[verifier::external_body]
fn natural_compare_ignoring_case(a: &str, b: &str) -> (r: Ordering)
    ensures
        r == natural_order_ignoring_case(a@, b@),
{
    natord::compare_ignore_case(a, b)
}

/// What a file is sorted by.
pub struct SortKey {
    /// The file's name.
    pub name: String,
    /// The file's extension, if it has one.
    pub ext: Option<String>,
    /// The file's size, in bytes.
    pub size: u64,
    /// The file's inode number.
    pub inode: u64,
    /// When the file was last modified.
    pub modified: Time,
    /// When the file was last accessed.
    pub accessed: Time,
    /// When the file's metadata last changed.
    pub changed: Time,
    /// When the file was created.
    pub created: Time,
    /// The file's type.
    pub kind: Type,
    /// Whether the file is a directory, or a link to one.
    pub points_to_directory: bool,
}

/// The sign of the comparison of two integers: -1, 0 or 1.
pub open spec fn sign(a: int, b: int) -> i8 {
    if a < b {
        -1i8
    } else if a == b {
        0i8
    } else {
        1i8
    }
}

/// The ordering that a comparison's sign stands for.
pub open spec fn ordering_of(s: i8) -> Ordering {
    if s < 0 {
        Ordering::Less
    } else if s == 0 {
        Ordering::Equal
    } else {
        Ordering::Greater
    }
}

/// The order of two integers.
pub open spec fn int_order(a: int, b: int) -> Ordering {
    ordering_of(sign(a, b))
}

/// The sign of the comparison of two times: by seconds, then by
/// nanoseconds.
pub open spec fn time_sign(a: Time, b: Time) -> i8 {
    if a.seconds != b.seconds {
        sign(a.seconds as int, b.seconds as int)
    } else {
        sign(a.nanoseconds as int, b.nanoseconds as int)
    }
}

/// The order of two times.
pub open spec fn time_order(a: Time, b: Time) -> Ordering {
    ordering_of(time_sign(a, b))
}

/// The position of a file type in the order of types: directories, files,
/// links, pipes, sockets, character devices, block devices, the rest.
pub open spec fn type_rank(t: Type) -> int {
    match t {
        Type::Directory => 0,
        Type::File => 1,
        Type::Link => 2,
        Type::Pipe => 3,
        Type::Socket => 4,
        Type::CharDevice => 5,
        Type::BlockDevice => 6,
        Type::Special => 7,
    }
}

/// The sign of the lexicographic comparison of two strings, character by
/// character, as strings are ordered.
pub open spec fn text_sign(a: Seq<char>, b: Seq<char>) -> i8
    decreases a.len(),
{
    if a.len() == 0 {
        if b.len() == 0 {
            0i8
        } else {
            -1i8
        }
    } else if b.len() == 0 {
        1i8
    } else if a[0] != b[0] {
        sign(a[0] as int, b[0] as int)
    } else {
        text_sign(a.drop_first(), b.drop_first())
    }
}

/// The lexicographic order of two strings.
pub open spec fn text_order(a: Seq<char>, b: Seq<char>) -> Ordering {
    ordering_of(text_sign(a, b))
}

/// The sign of the comparison of two files' sizes.
pub open spec fn size_sign(a: SortKey, b: SortKey) -> i8 {
    sign(a.size as int, b.size as int)
}

/// The sign of the comparison of two files' inodes.
pub open spec fn inode_sign(a: SortKey, b: SortKey) -> i8 {
    sign(a.inode as int, b.inode as int)
}

/// The order of two optional extensions: a file without one comes first.
pub open spec fn ext_order(a: Option<Seq<char>>, b: Option<Seq<char>>) -> Ordering {
    match (a, b) {
        (None, None) => Ordering::Equal,
        (None, Some(_)) => Ordering::Less,
        (Some(_), None) => Ordering::Greater,
        (Some(x), Some(y)) => text_order(x, y),
    }
}

/// A name without one leading dot.
pub open spec fn without_dot(n: Seq<char>) -> Seq<char> {
    if n.len() > 0 && n[0] == '.' {
        n.drop_first()
    } else {
        n
    }
}

/// The natural order of two names, with or without regard to case.
pub open spec fn name_order(case: SortCase, a: Seq<char>, b: Seq<char>) -> Ordering {
    match case {
        SortCase::ABCabc => natural_order(a, b),
        SortCase::AaBbCc => natural_order_ignoring_case(a, b),
    }
}

/// An order, or, when it finds the two equal, the order that breaks the tie.
pub open spec fn then(first: Ordering, second: Ordering) -> Ordering {
    match first {
        Ordering::Equal => second,
        _ => first,
    }
}

/// The extension of a sort key, as text.
pub open spec fn ext_view(e: Option<String>) -> Option<Seq<char>> {
    match e {
        Some(s) => Some(s@),
        None => None,
    }
}

/// The order of two files by a sort field.
pub open spec fn file_order(field: SortField, a: SortKey, b: SortKey) -> Ordering {
    match field {
        SortField::Unsorted => Ordering::Equal,
        SortField::Name(case) => name_order(case, a.name@, b.name@),
        SortField::Size => ordering_of(size_sign(a, b)),
        SortField::FileInode => ordering_of(inode_sign(a, b)),
        SortField::ModifiedDate => time_order(a.modified, b.modified),
        SortField::AccessedDate => time_order(a.accessed, b.accessed),
        SortField::ChangedDate => time_order(a.changed, b.changed),
        SortField::CreatedDate => time_order(a.created, b.created),
        SortField::ModifiedAge => time_order(b.modified, a.modified),
        SortField::FileType => then(
            int_order(type_rank(a.kind), type_rank(b.kind)),
            natural_order(a.name@, b.name@),
        ),
        SortField::Extension(case) => then(
            ext_order(ext_view(a.ext), ext_view(b.ext)),
            name_order(case, a.name@, b.name@),
        ),
        SortField::NameMixHidden(case) => name_order(case, without_dot(a.name@), without_dot(b.name@)),
    }
}

fn sign_exec(a: i128, b: i128) -> (r: i8)
    ensures
        r == sign(a as int, b as int),
{
    if a < b {
        -1
    } else if a == b {
        0
    } else {
        1
    }
}

fn ordering_from(s: i8) -> (r: Ordering)
    ensures
        r == ordering_of(s),
{
    if s < 0 {
        Ordering::Less
    } else if s == 0 {
        Ordering::Equal
    } else {
        Ordering::Greater
    }
}

fn time_sign_exec(a: &Time, b: &Time) -> (r: i8)
    ensures
        r == time_sign(*a, *b),
{
    if a.seconds != b.seconds {
        sign_exec(a.seconds as i128, b.seconds as i128)
    } else {
        sign_exec(a.nanoseconds as i128, b.nanoseconds as i128)
    }
}

fn size_sign_exec(a: &SortKey, b: &SortKey) -> (r: i8)
    ensures
        r == size_sign(*a, *b),
{
    sign_exec(a.size as i128, b.size as i128)
}

fn inode_sign_exec(a: &SortKey, b: &SortKey) -> (r: i8)
    ensures
        r == inode_sign(*a, *b),
{
    sign_exec(a.inode as i128, b.inode as i128)
}

fn type_sign_exec(a: Type, b: Type) -> (r: i8)
    ensures
        r == sign(type_rank(a), type_rank(b)),
{
    sign_exec(type_rank_exec(a), type_rank_exec(b))
}

fn type_rank_exec(t: Type) -> (r: i128)
    ensures
        r == type_rank(t),
{
    match t {
        Type::Directory => 0,
        Type::File => 1,
        Type::Link => 2,
        Type::Pipe => 3,
        Type::Socket => 4,
        Type::CharDevice => 5,
        Type::BlockDevice => 6,
        Type::Special => 7,
    }
}

fn text_sign_exec(a: &str, b: &str) -> (r: i8)
    ensures
        r == text_sign(a@, b@),
{
    let n = a.unicode_len();
    let m = b.unicode_len();
    let mut i: usize = 0;
    assert(a@.skip(0) =~= a@);
    assert(b@.skip(0) =~= b@);
    while i < n && i < m
        invariant
            n == a@.len(),
            m == b@.len(),
            0 <= i <= n,
            i <= m,
            text_sign(a@, b@) == text_sign(a@.skip(i as int), b@.skip(i as int)),
        decreases n - i,
    {
        let x = a.get_char(i);
        let y = b.get_char(i);
        proof {
            assert(a@.skip(i as int)[0] == x);
            assert(b@.skip(i as int)[0] == y);
            assert(a@.skip(i as int).drop_first() =~= a@.skip(i + 1));
            assert(b@.skip(i as int).drop_first() =~= b@.skip(i + 1));
        }
        if x != y {
            return sign_exec(x as i128, y as i128);
        }
        i = i + 1;
    }
    proof {
        if i >= n {
            assert(a@.skip(i as int).len() == 0);
        }
        if i >= m {
            assert(b@.skip(i as int).len() == 0);
        }
    }
    if i < n {
        1
    } else if i < m {
        -1
    } else {
        0
    }
}

fn strip_dot(n: &str) -> (r: &str)
    ensures
        r@ == without_dot(n@),
{
    let len = n.unicode_len();
    if len > 0 && n.get_char(0) == '.' {
        let r = n.substring_char(1, len);
        assert(r@ =~= n@.drop_first());
        r
    } else {
        n
    }
}

fn name_compare(case: SortCase, a: &str, b: &str) -> (r: Ordering)
    ensures
        r == name_order(case, a@, b@),
{
    match case {
        SortCase::ABCabc => natural_compare(a, b),
        SortCase::AaBbCc => natural_compare_ignoring_case(a, b),
    }
}

fn ext_compare(a: &Option<String>, b: &Option<String>) -> (r: Ordering)
    ensures
        r == ext_order(ext_view(*a), ext_view(*b)),
{
    match (a, b) {
        (None, None) => Ordering::Equal,
        (None, Some(_)) => Ordering::Less,
        (Some(_), None) => Ordering::Greater,
        (Some(x), Some(y)) => ordering_from(text_sign_exec(x.as_str(), y.as_str())),
    }
}

impl SortField {
    /// Compares two files to determine the order they should be listed in,
    /// depending on the sort field. Names are compared in their natural
    /// order, so `file10` comes after `file9`; ties in type or extension are
    /// broken by name.
    pub fn compare_files(self, a: &SortKey, b: &SortKey) -> (r: Ordering)
        ensures
            r == file_order(self, *a, *b),
    {
        match self {
            SortField::Unsorted => Ordering::Equal,
            SortField::Name(case) => name_compare(case, a.name.as_str(), b.name.as_str()),
            SortField::Size => ordering_from(size_sign_exec(a, b)),
            SortField::FileInode => ordering_from(inode_sign_exec(a, b)),
            SortField::ModifiedDate => ordering_from(time_sign_exec(&a.modified, &b.modified)),
            SortField::AccessedDate => ordering_from(time_sign_exec(&a.accessed, &b.accessed)),
            SortField::ChangedDate => ordering_from(time_sign_exec(&a.changed, &b.changed)),
            SortField::CreatedDate => ordering_from(time_sign_exec(&a.created, &b.created)),
            SortField::ModifiedAge => ordering_from(time_sign_exec(&b.modified, &a.modified)),
            SortField::FileType => match ordering_from(type_sign_exec(a.kind, b.kind)) {
                Ordering::Equal => natural_compare(a.name.as_str(), b.name.as_str()),
                order => order,
            },
            SortField::Extension(case) => match ext_compare(&a.ext, &b.ext) {
                Ordering::Equal => name_compare(case, a.name.as_str(), b.name.as_str()),
                order => order,
            },
            SortField::NameMixHidden(case) => name_compare(case, strip_dot(a.name.as_str()), strip_dot(b.name.as_str())),
        }
    }
}


/// Whether a file comes after another by a sort field.
pub open spec fn after(field: SortField, a: SortKey, b: SortKey) -> bool {
    file_order(field, a, b) == Ordering::Greater
}

/// Whether a file comes before another by a sort field.
pub open spec fn before(field: SortField, a: SortKey, b: SortKey) -> bool {
    file_order(field, a, b) == Ordering::Less
}

/// Whether two files are level by a sort field.
pub open spec fn tied(field: SortField, a: SortKey, b: SortKey) -> bool {
    file_order(field, a, b) == Ordering::Equal
}

/// Whether the file `b` comes after the file `a`.
pub fn comes_after(field: SortField, a: &SortKey, b: &SortKey) -> (r: bool)
    ensures
        r == after(field, *a, *b),
{
    match field.compare_files(a, b) {
        Ordering::Greater => true,
        _ => false,
    }
}

/// A comparison falls in one of three cases.
pub proof fn lemma_three_ways(field: SortField, a: SortKey, b: SortKey)
    ensures
        before(field, a, b) || tied(field, a, b) || after(field, a, b),
        !(before(field, a, b) && after(field, a, b)),
        !(tied(field, a, b) && after(field, a, b)),
        !(tied(field, a, b) && before(field, a, b)),
{
}

/// Whether the time `a` is later than the time `b`: more seconds, or as
/// many seconds and more nanoseconds.
pub open spec fn later(a: Time, b: Time) -> bool {
    a.seconds > b.seconds || (a.seconds == b.seconds && a.nanoseconds > b.nanoseconds)
}

/// Sorting by a time orders two files as that time of theirs compares, and
/// by nothing else: by modified, accessed, changed or created time, the
/// file with the later time comes after the other, the earlier one before
/// it, and files with the same time are level. Sorting by age is the
/// reverse of sorting by modified time.
pub proof fn law_times_order_by_their_own_time(a: SortKey, b: SortKey)
    ensures
        later(a.modified, b.modified) ==> file_order(SortField::ModifiedDate, a, b) == Ordering::Greater,
        later(b.modified, a.modified) ==> file_order(SortField::ModifiedDate, a, b) == Ordering::Less,
        a.modified == b.modified ==> file_order(SortField::ModifiedDate, a, b) == Ordering::Equal,
        later(a.accessed, b.accessed) ==> file_order(SortField::AccessedDate, a, b) == Ordering::Greater,
        later(b.accessed, a.accessed) ==> file_order(SortField::AccessedDate, a, b) == Ordering::Less,
        a.accessed == b.accessed ==> file_order(SortField::AccessedDate, a, b) == Ordering::Equal,
        later(a.changed, b.changed) ==> file_order(SortField::ChangedDate, a, b) == Ordering::Greater,
        later(b.changed, a.changed) ==> file_order(SortField::ChangedDate, a, b) == Ordering::Less,
        a.changed == b.changed ==> file_order(SortField::ChangedDate, a, b) == Ordering::Equal,
        later(a.created, b.created) ==> file_order(SortField::CreatedDate, a, b) == Ordering::Greater,
        later(b.created, a.created) ==> file_order(SortField::CreatedDate, a, b) == Ordering::Less,
        a.created == b.created ==> file_order(SortField::CreatedDate, a, b) == Ordering::Equal,
        later(a.modified, b.modified) ==> file_order(SortField::ModifiedAge, a, b) == Ordering::Less,
        later(b.modified, a.modified) ==> file_order(SortField::ModifiedAge, a, b) == Ordering::Greater,
        a.modified == b.modified ==> file_order(SortField::ModifiedAge, a, b) == Ordering::Equal,
{
}

/// Sorting by size or by inode orders two files as those numbers compare:
/// the larger comes after, the smaller before, and equal ones are level.
pub proof fn law_sizes_and_inodes_order_by_number(a: SortKey, b: SortKey)
    ensures
        a.size > b.size ==> file_order(SortField::Size, a, b) == Ordering::Greater,
        a.size < b.size ==> file_order(SortField::Size, a, b) == Ordering::Less,
        a.size == b.size ==> file_order(SortField::Size, a, b) == Ordering::Equal,
        a.inode > b.inode ==> file_order(SortField::FileInode, a, b) == Ordering::Greater,
        a.inode < b.inode ==> file_order(SortField::FileInode, a, b) == Ordering::Less,
        a.inode == b.inode ==> file_order(SortField::FileInode, a, b) == Ordering::Equal,
{
}

/// Sorting by type puts directories first, then files, links, pipes,
/// sockets, character devices, block devices and the rest.
pub proof fn law_type_order(a: SortKey, b: SortKey)
    ensures
        a.kind == Type::Directory && b.kind != Type::Directory ==> file_order(SortField::FileType, a, b) == Ordering::Less,
        a.kind == Type::File && b.kind == Type::Link ==> file_order(SortField::FileType, a, b) == Ordering::Less,
        a.kind == Type::Link && b.kind == Type::Pipe ==> file_order(SortField::FileType, a, b) == Ordering::Less,
        a.kind == Type::Pipe && b.kind == Type::Socket ==> file_order(SortField::FileType, a, b) == Ordering::Less,
        a.kind == Type::Socket && b.kind == Type::CharDevice ==> file_order(SortField::FileType, a, b) == Ordering::Less,
        a.kind == Type::CharDevice && b.kind == Type::BlockDevice ==> file_order(SortField::FileType, a, b) == Ordering::Less,
        a.kind == Type::BlockDevice && b.kind == Type::Special ==> file_order(SortField::FileType, a, b) == Ordering::Less,
        a.kind != Type::Special && b.kind == Type::Special ==> file_order(SortField::FileType, a, b) == Ordering::Less,
{
}

/// Sorting by extension puts files without an extension before files with
/// one, and orders files with the same extension (or none) by name.
pub proof fn law_extension_order(case: SortCase, a: SortKey, b: SortKey)
    ensures
        a.ext is None && b.ext is Some ==> file_order(SortField::Extension(case), a, b) == Ordering::Less,
        a.ext is Some && b.ext is None ==> file_order(SortField::Extension(case), a, b) == Ordering::Greater,
        a.ext is None && b.ext is None ==> file_order(SortField::Extension(case), a, b)
            == file_order(SortField::Name(case), a, b),
{
}

} // verus!
