//! Files, and the values read from their metadata.
//!
//! A `File` holds its name, its extension, its path and what a `stat` call
//! reported of it, as plain numbers; every method here reads those numbers.

use vstd::prelude::*;

use crate::file::{ext, extension_of, is_dotfile, is_dotfile_name};
use crate::fs::fields::{Blocks, Group, Inode, Links, Permissions, Size, Time, Type, User};
use crate::text::str_eq;

verus! {

/// The bits of a mode that give the file's type.
pub const S_IFMT: u32 = 0o170000u32;

/// The type bits of a socket.
pub const S_IFSOCK: u32 = 0o140000u32;

/// The type bits of a symbolic link.
pub const S_IFLNK: u32 = 0o120000u32;

/// The type bits of a regular file.
pub const S_IFREG: u32 = 0o100000u32;

/// The type bits of a block device.
pub const S_IFBLK: u32 = 0o060000u32;

/// The type bits of a directory.
pub const S_IFDIR: u32 = 0o040000u32;

/// The type bits of a character device.
pub const S_IFCHR: u32 = 0o020000u32;

/// The type bits of a named pipe.
pub const S_IFIFO: u32 = 0o010000u32;

/// The permission bit: set-user-ID.
pub const SET_UID: u32 = 0o4000u32;

/// The permission bit: set-group-ID.
pub const SET_GID: u32 = 0o2000u32;

/// The permission bit: sticky.
pub const STICKY: u32 = 0o1000u32;

/// The permission bit: the owner may read.
pub const USER_READ: u32 = 0o400u32;

/// The permission bit: the owner may write.
pub const USER_WRITE: u32 = 0o200u32;

/// The permission bit: the owner may execute.
pub const USER_EXECUTE: u32 = 0o100u32;

/// The permission bit: the group may read.
pub const GROUP_READ: u32 = 0o40u32;

/// The permission bit: the group may write.
pub const GROUP_WRITE: u32 = 0o20u32;

/// The permission bit: the group may execute.
pub const GROUP_EXECUTE: u32 = 0o10u32;

/// The permission bit: others may read.
pub const OTHER_READ: u32 = 0o4u32;

/// The permission bit: others may write.
pub const OTHER_WRITE: u32 = 0o2u32;

/// The permission bit: others may execute.
pub const OTHER_EXECUTE: u32 = 0o1u32;

/// What a `stat` call reports of a file, as plain numbers.
#[derive(PartialEq, Eq, Debug, Copy, Clone)]
pub struct Metadata {
    /// The type and permission bits.
    pub mode: u32,
    /// The number of hard links.
    pub nlink: u64,
    /// The inode number.
    pub ino: u64,
    /// The number of blocks allocated.
    pub blocks: u64,
    /// The owner's user ID.
    pub uid: u32,
    /// The group ID.
    pub gid: u32,
    /// The size in bytes.
    pub len: u64,
    /// The last access, in seconds since the epoch.
    pub atime: i64,
    /// The nanoseconds of the last access.
    pub atime_nsec: i64,
    /// The last modification, in seconds since the epoch.
    pub mtime: i64,
    /// The nanoseconds of the last modification.
    pub mtime_nsec: i64,
    /// The last status change, in seconds since the epoch.
    pub ctime: i64,
    /// The nanoseconds of the last status change.
    pub ctime_nsec: i64,
}

/// Whether the type bits of `mode` are `kind`.
pub open spec fn mode_is(mode: u32, kind: u32) -> bool {
    mode & S_IFMT == kind
}

/// Whether `bit` is set in `mode`.
pub open spec fn has_bit(mode: u32, bit: u32) -> bool {
    mode & bit == bit
}

/// The type of a file with the given mode.
pub open spec fn type_of_mode(mode: u32) -> Type {
    if mode_is(mode, S_IFREG) {
        Type::File
    } else if mode_is(mode, S_IFDIR) {
        Type::Directory
    } else if mode_is(mode, S_IFIFO) {
        Type::Pipe
    } else if mode_is(mode, S_IFLNK) {
        Type::Link
    } else if mode_is(mode, S_IFCHR) {
        Type::CharDevice
    } else if mode_is(mode, S_IFBLK) {
        Type::BlockDevice
    } else if mode_is(mode, S_IFSOCK) {
        Type::Socket
    } else {
        Type::Special
    }
}

/// The permissions of a file with the given mode, one flag per bit.
pub open spec fn permissions_of_mode(mode: u32) -> Permissions {
    Permissions {
        user_read: has_bit(mode, USER_READ),
        user_write: has_bit(mode, USER_WRITE),
        user_execute: has_bit(mode, USER_EXECUTE),
        group_read: has_bit(mode, GROUP_READ),
        group_write: has_bit(mode, GROUP_WRITE),
        group_execute: has_bit(mode, GROUP_EXECUTE),
        other_read: has_bit(mode, OTHER_READ),
        other_write: has_bit(mode, OTHER_WRITE),
        other_execute: has_bit(mode, OTHER_EXECUTE),
        sticky: has_bit(mode, STICKY),
        setgid: has_bit(mode, SET_GID),
        setuid: has_bit(mode, SET_UID),
    }
}

/// Whether any of `choices` holds exactly the characters `s`.
pub open spec fn one_of(choices: Seq<&str>, s: Seq<char>) -> bool {
    exists|i: int| 0 <= i < choices.len() && #[trigger] choices[i]@ == s
}

/// A file: its name and extension, its path, and its metadata.
///
/// Each file has its name shown at least once, its extension looked at at
/// least once, and its metadata queried at least once, so all of it is read
/// at the start and held on to.
pub struct File {
    /// The last part of the file's path, extension included.
    pub name: String,
    /// The extension of the name, lower-cased, if it has one.
    pub ext: Option<String>,
    /// The path that the file was found by.
    pub path: Vec<u8>,
    /// What a `stat` call reported of the file.
    pub metadata: Metadata,
    /// The path of the directory that the file was listed from, if it was
    /// found in one rather than named on the command line.
    pub dir: Option<Vec<u8>>,
}

impl File {
    /// Whether the name and the extension agree: the extension is the one
    /// that the name has.
    pub open spec fn well_formed(&self) -> bool {
        match self.ext {
            Some(e) => extension_of(self.name@) == Some(e@),
            None => extension_of(self.name@) is None,
        }
    }

    /// A file with the given metadata, found by `path` under the name
    /// `name`, inside the directory `parent` if it was listed from one.
    pub fn with_metadata(metadata: Metadata, path: Vec<u8>, name: String, parent: Option<Vec<u8>>) -> (r: File)
        ensures
            r.name@ == name@,
            r.path@ == path@,
            r.metadata == metadata,
            r.dir == parent,
            r.well_formed(),
    {
        let e = ext(name.as_str());
        File { name, ext: e, path, metadata, dir: parent }
    }

    /// Whether this file is a directory.
    pub fn is_directory(&self) -> (r: bool)
        ensures
            r == mode_is(self.metadata.mode, S_IFDIR),
    {
        self.metadata.mode & S_IFMT == S_IFDIR
    }

    /// Whether this file is a regular file: not a directory, a link, or
    /// anything else treated specially.
    pub fn is_file(&self) -> (r: bool)
        ensures
            r == mode_is(self.metadata.mode, S_IFREG),
    {
        self.metadata.mode & S_IFMT == S_IFREG
    }

    /// Whether this file is a regular file that its owner may execute.
    /// Executable files are highlighted differently from executable
    /// directories.
    pub fn is_executable_file(&self) -> (r: bool)
        ensures
            r == (mode_is(self.metadata.mode, S_IFREG) && has_bit(self.metadata.mode, USER_EXECUTE)),
    {
        self.is_file() && self.metadata.mode & USER_EXECUTE == USER_EXECUTE
    }

    /// Whether this file is a symbolic link.
    pub fn is_link(&self) -> (r: bool)
        ensures
            r == mode_is(self.metadata.mode, S_IFLNK),
    {
        self.metadata.mode & S_IFMT == S_IFLNK
    }

    /// Whether this file is a named pipe.
    pub fn is_pipe(&self) -> (r: bool)
        ensures
            r == mode_is(self.metadata.mode, S_IFIFO),
    {
        self.metadata.mode & S_IFMT == S_IFIFO
    }

    /// Whether this file is a character device.
    pub fn is_char_device(&self) -> (r: bool)
        ensures
            r == mode_is(self.metadata.mode, S_IFCHR),
    {
        self.metadata.mode & S_IFMT == S_IFCHR
    }

    /// Whether this file is a block device.
    pub fn is_block_device(&self) -> (r: bool)
        ensures
            r == mode_is(self.metadata.mode, S_IFBLK),
    {
        self.metadata.mode & S_IFMT == S_IFBLK
    }

    /// Whether this file is a socket.
    pub fn is_socket(&self) -> (r: bool)
        ensures
            r == mode_is(self.metadata.mode, S_IFSOCK),
    {
        self.metadata.mode & S_IFMT == S_IFSOCK
    }

    /// Whether this file is a dotfile: its name begins with a dot, which on
    /// Unix marks a file to be hidden by default.
    pub fn is_dotfile(&self) -> (r: bool)
        ensures
            r == is_dotfile_name(self.name@),
    {
        is_dotfile(self.name.as_str())
    }

    /// This file's number of hard links, and whether it is a regular file
    /// with more than one of them. Such files are uncommon, while
    /// directories often have several links, so only the former are
    /// highlighted.
    pub fn links(&self) -> (r: Links)
        ensures
            r == (Links {
                count: self.metadata.nlink,
                multiple: mode_is(self.metadata.mode, S_IFREG) && self.metadata.nlink > 1,
            }),
    {
        let count = self.metadata.nlink;
        Links { count, multiple: self.is_file() && count > 1 }
    }

    /// This file's inode.
    pub fn inode(&self) -> (r: Inode)
        ensures
            r == Inode(self.metadata.ino),
    {
        Inode(self.metadata.ino)
    }

    /// This file's number of blocks on the filesystem, for regular files and
    /// links only.
    pub fn blocks(&self) -> (r: Blocks)
        ensures
            r == (if mode_is(self.metadata.mode, S_IFREG) || mode_is(self.metadata.mode, S_IFLNK) {
                Blocks::Count(self.metadata.blocks)
            } else {
                Blocks::Nothing
            }),
    {
        if self.is_file() || self.is_link() {
            Blocks::Count(self.metadata.blocks)
        } else {
            Blocks::Nothing
        }
    }

    /// The ID of the user that owns this file.
    pub fn user(&self) -> (r: User)
        ensures
            r == User(self.metadata.uid),
    {
        User(self.metadata.uid)
    }

    /// The ID of the group that owns this file.
    pub fn group(&self) -> (r: Group)
        ensures
            r == Group(self.metadata.gid),
    {
        Group(self.metadata.gid)
    }

    /// This file's size, unless it is a directory: directories have sizes
    /// on some filesystems, but they say nothing useful, so none is shown.
    pub fn size(&self) -> (r: Size)
        ensures
            r == (if mode_is(self.metadata.mode, S_IFDIR) {
                Size::Nothing
            } else {
                Size::Bytes(self.metadata.len)
            }),
    {
        if self.is_directory() {
            Size::Nothing
        } else {
            Size::Bytes(self.metadata.len)
        }
    }

    /// When this file was last modified.
    pub fn modified_time(&self) -> (r: Time)
        ensures
            r == (Time { seconds: self.metadata.mtime, nanoseconds: self.metadata.mtime_nsec }),
    {
        Time { seconds: self.metadata.mtime, nanoseconds: self.metadata.mtime_nsec }
    }

    /// When this file's status last changed, which is what is shown as its
    /// creation time.
    pub fn created_time(&self) -> (r: Time)
        ensures
            r == (Time { seconds: self.metadata.ctime, nanoseconds: self.metadata.ctime_nsec }),
    {
        Time { seconds: self.metadata.ctime, nanoseconds: self.metadata.ctime_nsec }
    }

    /// When this file was last accessed.
    pub fn accessed_time(&self) -> (r: Time)
        ensures
            r == (Time { seconds: self.metadata.atime, nanoseconds: self.metadata.atime_nsec }),
    {
        Time { seconds: self.metadata.atime, nanoseconds: self.metadata.atime_nsec }
    }

    /// This file's type, shown in the leftmost place of the permissions
    /// column, as `ls` does.
    pub fn type_char(&self) -> (r: Type)
        ensures
            r == type_of_mode(self.metadata.mode),
    {
        if self.is_file() {
            Type::File
        } else if self.is_directory() {
            Type::Directory
        } else if self.is_pipe() {
            Type::Pipe
        } else if self.is_link() {
            Type::Link
        } else if self.is_char_device() {
            Type::CharDevice
        } else if self.is_block_device() {
            Type::BlockDevice
        } else if self.is_socket() {
            Type::Socket
        } else {
            Type::Special
        }
    }

    /// This file's permissions, with a flag for each bit.
    pub fn permissions(&self) -> (r: Permissions)
        ensures
            r == permissions_of_mode(self.metadata.mode),
    {
        let bits = self.metadata.mode;
        Permissions {
            user_read: bits & USER_READ == USER_READ,
            user_write: bits & USER_WRITE == USER_WRITE,
            user_execute: bits & USER_EXECUTE == USER_EXECUTE,
            group_read: bits & GROUP_READ == GROUP_READ,
            group_write: bits & GROUP_WRITE == GROUP_WRITE,
            group_execute: bits & GROUP_EXECUTE == GROUP_EXECUTE,
            other_read: bits & OTHER_READ == OTHER_READ,
            other_write: bits & OTHER_WRITE == OTHER_WRITE,
            other_execute: bits & OTHER_EXECUTE == OTHER_EXECUTE,
            sticky: bits & STICKY == STICKY,
            setgid: bits & SET_GID == SET_GID,
            setuid: bits & SET_UID == SET_UID,
        }
    }

    /// Whether this file's extension is any of `choices`; never, when the
    /// file has no extension.
    pub fn extension_is_one_of(&self, choices: &[&str]) -> (r: bool)
        ensures
            r == (self.ext is Some && one_of(choices@, self.ext->0@)),
    {
        match &self.ext {
            Some(e) => any_equal(choices, e.as_str()),
            None => false,
        }
    }

    /// Whether this file's name, extension included, is any of `choices`.
    pub fn name_is_one_of(&self, choices: &[&str]) -> (r: bool)
        ensures
            r == one_of(choices@, self.name@),
    {
        any_equal(choices, self.name.as_str())
    }
}

/// Whether any of `choices` holds exactly the characters of `s`.
fn any_equal(choices: &[&str], s: &str) -> (r: bool)
    ensures
        r == one_of(choices@, s@),
{
    let mut i: usize = 0;
    while i < choices.len()
        invariant
            i <= choices@.len(),
            forall|j: int| 0 <= j < i ==> choices@[j]@ != s@,
        decreases choices@.len() - i,
    {
        if str_eq(choices[i], s) {
            return true;
        }
        i = i + 1;
    }
    false
}

/// What following a symbolic link led to.
pub enum FileTarget {
    /// The link points at a file that exists.
    Found(File),
    /// The link points at a file that does not exist; this is the path where
    /// it would be.
    Broken(Vec<u8>),
    /// Following the link failed, with this message: the file may not be a
    /// link at all, or it may not be readable.
    Failed(String),
}

impl FileTarget {
    /// Whether this link leads nowhere, for whatever reason. Broken links
    /// are highlighted differently in the grid view.
    pub fn is_broken(&self) -> (r: bool)
        ensures
            r == !(self is Found),
    {
        match self {
            FileTarget::Found(_) => false,
            FileTarget::Broken(_) => true,
            FileTarget::Failed(_) => true,
        }
    }
}

/// The type shown for a file agrees with the checks on it: each type is
/// shown exactly for the files that its check accepts, and `Special` for the
/// files that no check accepts.
pub proof fn law_type_agrees_with_checks(mode: u32)
    ensures
        (type_of_mode(mode) == Type::File) == mode_is(mode, S_IFREG),
        (type_of_mode(mode) == Type::Directory) == mode_is(mode, S_IFDIR),
        (type_of_mode(mode) == Type::Pipe) == mode_is(mode, S_IFIFO),
        (type_of_mode(mode) == Type::Link) == mode_is(mode, S_IFLNK),
        (type_of_mode(mode) == Type::CharDevice) == mode_is(mode, S_IFCHR),
        (type_of_mode(mode) == Type::BlockDevice) == mode_is(mode, S_IFBLK),
        (type_of_mode(mode) == Type::Socket) == mode_is(mode, S_IFSOCK),
        (type_of_mode(mode) == Type::Special) == !(mode_is(mode, S_IFREG) || mode_is(mode, S_IFDIR)
            || mode_is(mode, S_IFIFO) || mode_is(mode, S_IFLNK) || mode_is(mode, S_IFCHR)
            || mode_is(mode, S_IFBLK) || mode_is(mode, S_IFSOCK)),
{
}

} // verus!
