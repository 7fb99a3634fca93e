//! Extended attributes: the values read for each file, and the decoding of
//! the name list that the operating system hands back.

use vstd::prelude::*;

use crate::bytes::sub_bytes;
use crate::text::{lossy_string, utf8_lossy};

verus! {

/// Whether extended attributes can be read on this platform.
pub const ENABLED: bool = true;

/// Returns true if the extended attribute feature is implemented on this
/// platform.
pub fn feature_implemented() -> (r: bool)
    ensures
        r == ENABLED,
{
    ENABLED
}

/// An extended attribute: its name and the size of its value.
#[derive(PartialEq, Eq, Debug, Clone)]
pub struct Attribute {
    pub name: String,
    pub size: usize,
}

impl Attribute {
    /// Getter for name.
    pub fn name(&self) -> (r: &str)
        ensures
            r@ == self.name@,
    {
        self.name.as_str()
    }

    /// Getter for size.
    pub fn size(&self) -> (r: usize)
        ensures
            r == self.size,
    {
        self.size
    }
}


/// Whether to read the attributes of a symlink's target or of the link.
#[derive(PartialEq, Eq, Debug, Copy, Clone)]
pub enum FollowSymlinks {
    Yes,
    No,
}

/// The operating system refused to list a file's attributes; the caller
/// reads the reason from the last OS error.
#[derive(PartialEq, Eq, Debug, Copy, Clone)]
pub struct ListError;

/// The names in a list of NUL-terminated names, from position `i` on,
/// where the current name started at `start`; bytes after the last NUL are
/// not a name.
pub open spec fn names_from(buf: Seq<u8>, i: int, start: int, acc: Seq<Seq<u8>>) -> Seq<Seq<u8>>
    decreases buf.len() - i,
{
    if i < 0 || i >= buf.len() {
        acc
    } else if buf[i] == 0 {
        names_from(buf, i + 1, i + 1, acc.push(buf.subrange(start, i)))
    } else {
        names_from(buf, i + 1, start, acc)
    }
}

/// The names in a list of NUL-terminated names, in order.
pub open spec fn attribute_names_of(buf: Seq<u8>) -> Seq<Seq<u8>> {
    names_from(buf, 0, 0, Seq::empty())
}

/// The attributes among `names[..n]` whose value size is positive, each as
/// its decoded name and its size.
pub open spec fn kept_attributes(names: Seq<Seq<u8>>, sizes: Seq<isize>, n: int) -> Seq<(Seq<char>, usize)>
    decreases n,
{
    if n <= 0 {
        Seq::empty()
    } else if sizes[n - 1] > 0 {
        kept_attributes(names, sizes, n - 1).push((utf8_lossy(names[n - 1]), sizes[n - 1] as usize))
    } else {
        kept_attributes(names, sizes, n - 1)
    }
}

/// Attributes as their names and sizes.
pub open spec fn attributes_view(v: Seq<Attribute>) -> Seq<(Seq<char>, usize)> {
    v.map_values(|a: Attribute| (a.name@, a.size))
}

/// Splits a list of NUL-terminated names, as `listxattr` fills it, into the
/// names, without their terminators.
pub fn attribute_names(buf: &Vec<u8>) -> (r: Vec<Vec<u8>>)
    ensures
        r@.map_values(|v: Vec<u8>| v@) == attribute_names_of(buf@),
{
    let mut names: Vec<Vec<u8>> = Vec::new();
    let mut start: usize = 0;
    let mut i: usize = 0;
    assert(names@.map_values(|v: Vec<u8>| v@) =~= Seq::<Seq<u8>>::empty());
    while i < buf.len()
        invariant
            start <= i <= buf@.len(),
            names_from(buf@, i as int, start as int, names@.map_values(|v: Vec<u8>| v@))
                == attribute_names_of(buf@),
        decreases buf@.len() - i,
    {
        if buf[i] == 0 {
            let ghost before = names@.map_values(|v: Vec<u8>| v@);
            let name = sub_bytes(buf.as_slice(), start, i);
            names.push(name);
            assert(names@.map_values(|v: Vec<u8>| v@) =~= before.push(buf@.subrange(start as int, i as int)));
            start = i + 1;
        }
        i = i + 1;
    }
    names
}

/// Decides the attributes of a file from what the operating system said:
/// `bufsize`, the size of its list of names (negative on failure, zero when
/// there are none); `listed`, what filling the list `buf` returned; and
/// `sizes`, the value size of each name in the list, in order. Only the
/// attributes with a positive value size are kept.
pub fn list_attrs(bufsize: isize, listed: isize, buf: &Vec<u8>, sizes: &Vec<isize>) -> (r: Result<Vec<Attribute>, ListError>)
    requires
        bufsize > 0 && listed > 0 ==> sizes@.len() == attribute_names_of(buf@).len(),
    ensures
        bufsize < 0 ==> r is Err,
        bufsize == 0 ==> r is Ok && r->Ok_0@.len() == 0,
        bufsize > 0 && listed < 0 ==> r is Err,
        bufsize > 0 && listed == 0 ==> r is Ok && r->Ok_0@.len() == 0,
        bufsize > 0 && listed > 0 ==> r is Ok && attributes_view(r->Ok_0@) == kept_attributes(
            attribute_names_of(buf@),
            sizes@,
            sizes@.len() as int,
        ),
{
    if bufsize < 0 {
        return Err(ListError);
    }
    if bufsize == 0 || listed == 0 {
        return Ok(Vec::new());
    }
    if listed < 0 {
        return Err(ListError);
    }
    let names = attribute_names(buf);
    let ghost ns = attribute_names_of(buf@);
    let mut found: Vec<Attribute> = Vec::new();
    let mut k: usize = 0;
    assert(attributes_view(found@) =~= Seq::<(Seq<char>, usize)>::empty());
    while k < names.len()
        invariant
            names@.map_values(|v: Vec<u8>| v@) == ns,
            sizes@.len() == ns.len(),
            0 <= k <= names@.len(),
            attributes_view(found@) == kept_attributes(ns, sizes@, k as int),
        decreases names@.len() - k,
    {
        assert(names@[k as int]@ == ns[k as int]);
        if sizes[k] > 0 {
            let ghost before = attributes_view(found@);
            let name = lossy_string(names[k].as_slice());
            found.push(Attribute { name, size: sizes[k] as usize });
            assert(attributes_view(found@) =~= before.push((utf8_lossy(ns[k as int]), sizes@[k as int] as usize)));
        }
        k = k + 1;
    }
    Ok(found)
}


/// Options for listing attributes on systems that take them as bits.
#[derive(PartialEq, Eq, Debug, Copy, Clone)]
pub enum ListFlags {
    /// Don't follow symbolic links.
    NoFollow,
    /// Expose HFS Compression extended attributes.
    ShowCompression,
}

/// The bit that selects an option: `XATTR_NOFOLLOW` is 1, and
/// `XATTR_SHOWCOMPRESSION` is 32.
pub open spec fn flag_bit(f: ListFlags) -> i32 {
    match f {
        ListFlags::NoFollow => 1,
        ListFlags::ShowCompression => 32,
    }
}

/// The bits of the options among `flags[..n]`, or-ed together.
pub open spec fn flag_bits(flags: Seq<ListFlags>, n: int) -> i32
    decreases n,
{
    if n <= 0 {
        0
    } else {
        flag_bits(flags, n - 1) | flag_bit(flags[n - 1])
    }
}

impl ListFlags {
    /// The bit that selects this option.
    pub fn bit(self) -> (r: i32)
        ensures
            r == flag_bit(self),
    {
        match self {
            ListFlags::NoFollow => 1,
            ListFlags::ShowCompression => 32,
        }
    }
}

/// The options to pass to the system, or-ed together.
pub fn combine_flags(flags: &Vec<ListFlags>) -> (r: i32)
    ensures
        r == flag_bits(flags@, flags@.len() as int),
{
    let mut bits: i32 = 0;
    let mut i: usize = 0;
    while i < flags.len()
        invariant
            0 <= i <= flags@.len(),
            bits == flag_bits(flags@, i as int),
        decreases flags@.len() - i,
    {
        bits = bits | flags[i].bit();
        i = i + 1;
    }
    bits
}

/// The option bits that read the attributes as `follow` asks: reading a
/// link's target leaves the no-follow bit clear; reading the link itself
/// sets it.
pub fn follow_flag(follow: FollowSymlinks) -> (r: i32)
    ensures
        r == match follow {
            FollowSymlinks::Yes => 0i32,
            FollowSymlinks::No => flag_bit(ListFlags::NoFollow),
        },
{
    match follow {
        FollowSymlinks::Yes => 0,
        FollowSymlinks::No => ListFlags::NoFollow.bit(),
    }
}

/// What the attribute-listing calls are made with: the option bits.
#[derive(PartialEq, Eq, Debug, Copy, Clone)]
pub struct Lister {
    pub c_flags: i32,
}

impl Lister {
    /// A lister that reads a link's target's attributes, or the link's own.
    pub fn new(do_follow: FollowSymlinks) -> (r: Lister)
        ensures
            r.c_flags == match do_follow {
                FollowSymlinks::Yes => 0i32,
                FollowSymlinks::No => flag_bit(ListFlags::NoFollow),
            },
    {
        Lister { c_flags: follow_flag(do_follow) }
    }
}

} // verus!
