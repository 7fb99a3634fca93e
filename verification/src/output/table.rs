//! Settings of the table in the details view.

use vstd::prelude::*;

use crate::output::time::TimeFormat;

verus! {

/// Options for displaying a table.
#[derive(PartialEq, Eq, Debug, Copy, Clone)]
pub struct Options {
    pub size_format: SizeFormat,
    pub time_format: TimeFormat,
    pub user_format: UserFormat,
    pub columns: Columns,
}

/// Extra columns to display in the table.
#[derive(PartialEq, Eq, Debug, Copy, Clone)]
pub struct Columns {
    /// At least one of these timestamps will be shown.
    pub time_types: TimeTypes,
    // The rest are just on/off
    pub inode: bool,
    pub links: bool,
    pub blocks: bool,
    pub group: bool,
    pub git: bool,
    pub octal: bool,
    // Defaults to true:
    pub permissions: bool,
    pub filesize: bool,
    pub user: bool,
}

impl Columns {
    /// Whether a Git status column is shown, so that it is worth looking for
    /// a repository.
    pub fn should_scan_for_git(&self) -> (r: bool)
        ensures
            r == self.git,
    {
        self.git
    }
}

/// Formatting options for file sizes.
#[derive(PartialEq, Eq, Debug, Copy, Clone)]
pub enum SizeFormat {
    /// Format the file size using **decimal** prefixes, such as "kilo",
    /// "mega", or "giga".
    DecimalBytes,
    /// Format the file size using **binary** prefixes, such as "kibi",
    /// "mebi", or "gibi".
    BinaryBytes,
    /// Do no formatting and just display the size as a number of bytes.
    JustBytes,
}

/// Formatting options for user and group.
#[derive(PartialEq, Eq, Debug, Copy, Clone)]
pub enum UserFormat {
    /// The UID / GID
    Numeric,
    /// Show the name
    Name,
}

/// The types of a file's time fields.
#[derive(PartialEq, Eq, Debug, Copy, Clone)]
pub enum TimeType {
    /// The file's modified time (`st_mtime`).
    Modified,
    /// The file's changed time (`st_ctime`)
    Changed,
    /// The file's accessed time (`st_atime`).
    Accessed,
    /// The file's creation time (`btime` or `birthtime`).
    Created,
}

impl TimeType {
    /// Returns the text to use for a column's heading in the columns output.
    pub fn header(self) -> (r: &'static str)
        ensures
            r == (match self {
                TimeType::Modified => "Date Modified",
                TimeType::Changed => "Date Changed",
                TimeType::Accessed => "Date Accessed",
                TimeType::Created => "Date Created",
            }),
    {
        match self {
            TimeType::Modified => "Date Modified",
            TimeType::Changed => "Date Changed",
            TimeType::Accessed => "Date Accessed",
            TimeType::Created => "Date Created",
        }
    }
}

/// Fields for which of a file's time fields should be displayed in the
/// columns output.
///
/// There should always be at least one of these — there's no way to disable
/// the time columns entirely (yet).
#[derive(PartialEq, Eq, Debug, Copy, Clone)]
pub struct TimeTypes {
    pub modified: bool,
    pub changed: bool,
    pub accessed: bool,
    pub created: bool,
}

impl TimeTypes {
    /// By default, display just the 'modified' time. This is the most
    /// common option, which is why it has this shorthand.
    pub fn default() -> (r: TimeTypes)
        ensures
            r == (TimeTypes { modified: true, changed: false, accessed: false, created: false }),
    {
        TimeTypes { modified: true, changed: false, accessed: false, created: false }
    }
}

} // verus!
