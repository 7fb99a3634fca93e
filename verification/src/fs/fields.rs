//! Wrapper types for the values read from a file's metadata.
//!
//! Each type tags a raw value with the field it came from, so the values can
//! be rendered as strings later, in whichever style the user asked for.

use vstd::prelude::*;

verus! {

/// The file's base type, which gets displayed in the very first column of the
/// details output.
///
/// This type is set entirely by the filesystem, rather than relying on a
/// file's contents. So "link" is a type, but "image" is just a type of
/// regular file. Its order is used when sorting by type.
#[derive(PartialEq, Eq, PartialOrd, Ord, Debug, Copy, Clone)]
pub enum Type {
    Directory,
    File,
    Link,
    Pipe,
    Socket,
    CharDevice,
    BlockDevice,
    Special,
}

impl Type {
    /// Whether this is the type of a regular file.
    pub fn is_regular_file(self) -> (r: bool)
        ensures
            r == (self is File),
    {
        match self {
            Type::File => true,
            _ => false,
        }
    }
}

/// The file's Unix permission bitfield, with one entry per bit.
#[derive(PartialEq, Eq, Debug, Copy, Clone)]
pub struct Permissions {
    pub user_read: bool,
    pub user_write: bool,
    pub user_execute: bool,
    pub group_read: bool,
    pub group_write: bool,
    pub group_execute: bool,
    pub other_read: bool,
    pub other_write: bool,
    pub other_execute: bool,
    pub sticky: bool,
    pub setgid: bool,
    pub setuid: bool,
}

/// The three pieces of information that are displayed as a single column in
/// the details view.
#[derive(PartialEq, Eq, Debug, Copy, Clone)]
pub struct PermissionsPlus {
    pub file_type: Type,
    pub permissions: Permissions,
    pub xattrs: bool,
}

/// The permissions encoded as octal values.
#[derive(PartialEq, Eq, Debug, Copy, Clone)]
pub struct OctalPermissions {
    pub permissions: Permissions,
}

/// A file's number of hard links on the filesystem.
#[derive(PartialEq, Eq, Debug, Copy, Clone)]
pub struct Links {
    /// The actual link count.
    pub count: u64,
    /// Whether this file is a regular file with more than one hard link.
    pub multiple: bool,
}

/// A file's inode.
#[derive(PartialEq, Eq, Debug, Copy, Clone)]
pub struct Inode(pub u64);

/// The number of blocks that a file takes up on the filesystem, if any.
#[derive(PartialEq, Eq, Debug, Copy, Clone)]
pub enum Blocks {
    /// This file has the given number of blocks.
    Count(u64),
    /// This file isn't of a type that can take up blocks.
    Nothing,
}

/// The ID of the user that owns a file.
#[derive(PartialEq, Eq, Debug, Copy, Clone)]
pub struct User(pub u32);

/// The ID of the group that a file belongs to.
#[derive(PartialEq, Eq, Debug, Copy, Clone)]
pub struct Group(pub u32);

/// The major and minor device IDs that get displayed for device files.
#[derive(PartialEq, Eq, Debug, Copy, Clone)]
pub struct DeviceIDs {
    pub major: u8,
    pub minor: u8,
}

/// A file's size, in bytes.
#[derive(PartialEq, Eq, Debug, Copy, Clone)]
pub enum Size {
    /// This file has a defined size.
    Bytes(u64),
    /// This file has no size, or has a size but we aren't interested in it.
    Nothing,
    /// This file is a block or character device, so instead of a size, its
    /// major and minor device IDs are shown.
    DeviceIDs(DeviceIDs),
}

/// One of a file's timestamps (created, accessed, or modified).
#[derive(PartialEq, Eq, PartialOrd, Ord, Debug, Copy, Clone)]
pub struct Time {
    pub seconds: i64,
    pub nanoseconds: i64,
}

/// A file's status in a Git repository.
#[derive(PartialEq, Eq, Structural, Debug, Copy, Clone)]
pub enum GitStatus {
    /// This file hasn't changed since the last commit.
    NotModified,
    /// This file didn't exist for the last commit, and is not ignored.
    New,
    /// A file that's been modified since the last commit.
    Modified,
    /// A deleted file.
    Deleted,
    /// A file that Git has tracked a rename for.
    Renamed,
    /// A file that's had its type (such as the file permissions) changed.
    TypeChange,
    /// A file that's ignored (that matches a line in .gitignore).
    Ignored,
    /// A file that's updated but unmerged.
    Conflicted,
}

/// A file's complete Git status: the staged and the unstaged changes.
#[derive(PartialEq, Eq, Debug, Copy, Clone)]
pub struct Git {
    pub staged: GitStatus,
    pub unstaged: GitStatus,
}

impl Git {
    /// The Git status of a file with nothing done to it.
    pub fn empty() -> (r: Git)
        ensures
            r == (Git { staged: GitStatus::NotModified, unstaged: GitStatus::NotModified }),
    {
        Git { staged: GitStatus::NotModified, unstaged: GitStatus::NotModified }
    }
}

impl Default for Git {
    /// The Git status of a file with nothing done to it.
    fn default() -> (r: Git)
        ensures
            r == (Git { staged: GitStatus::NotModified, unstaged: GitStatus::NotModified }),
    {
        Git { staged: GitStatus::NotModified, unstaged: GitStatus::NotModified }
    }
}

/// What is known of a directory as the top of a Git repository of its own.
#[derive(PartialEq, Eq, Debug, Copy, Clone)]
pub enum SubdirGitRepoStatus {
    /// The directory is not the top of a repository.
    NotRepo,
}

/// A directory, as a possible Git repository of its own.
#[derive(PartialEq, Eq, Debug, Copy, Clone)]
pub struct SubdirGitRepo {
    pub status: SubdirGitRepoStatus,
}

impl SubdirGitRepo {
    /// The directory at `dir`, taken as a repository of its own. Without
    /// support for reading repositories, no directory is one.
    pub fn from_path(_dir: &Vec<u8>) -> (r: SubdirGitRepo)
        ensures
            r.status == SubdirGitRepoStatus::NotRepo,
    {
        SubdirGitRepo { status: SubdirGitRepoStatus::NotRepo }
    }
}

} // verus!
