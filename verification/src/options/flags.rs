//! The options that the command line understands.

use vstd::prelude::*;

use crate::options::parser::{Arg, Args, TakesValue};

verus! {

/// `--version` (`-v`): show the version.
#[verifier::allow_in_spec]
pub fn version() -> Arg
    returns
        (Arg { short: Some(118u8), long: "version", takes_value: TakesValue::Forbidden }),
{
    Arg { short: Some(118u8), long: "version", takes_value: TakesValue::Forbidden }
}

/// `--help` (`-?`): show the help text.
#[verifier::allow_in_spec]
pub fn help() -> Arg
    returns
        (Arg { short: Some(63u8), long: "help", takes_value: TakesValue::Forbidden }),
{
    Arg { short: Some(63u8), long: "help", takes_value: TakesValue::Forbidden }
}

/// `--oneline` (`-1`): display one entry per line.
#[verifier::allow_in_spec]
pub fn one_line() -> Arg
    returns
        (Arg { short: Some(49u8), long: "oneline", takes_value: TakesValue::Forbidden }),
{
    Arg { short: Some(49u8), long: "oneline", takes_value: TakesValue::Forbidden }
}

/// `--long` (`-l`): display extended file metadata as a table.
#[verifier::allow_in_spec]
pub fn long() -> Arg
    returns
        (Arg { short: Some(108u8), long: "long", takes_value: TakesValue::Forbidden }),
{
    Arg { short: Some(108u8), long: "long", takes_value: TakesValue::Forbidden }
}

/// `--grid` (`-G`): display entries as a grid.
#[verifier::allow_in_spec]
pub fn grid() -> Arg
    returns
        (Arg { short: Some(71u8), long: "grid", takes_value: TakesValue::Forbidden }),
{
    Arg { short: Some(71u8), long: "grid", takes_value: TakesValue::Forbidden }
}

/// `--across` (`-x`): sort the grid across, rather than downwards.
#[verifier::allow_in_spec]
pub fn across() -> Arg
    returns
        (Arg { short: Some(120u8), long: "across", takes_value: TakesValue::Forbidden }),
{
    Arg { short: Some(120u8), long: "across", takes_value: TakesValue::Forbidden }
}

/// `--recurse` (`-R`): recurse into directories.
#[verifier::allow_in_spec]
pub fn recurse() -> Arg
    returns
        (Arg { short: Some(82u8), long: "recurse", takes_value: TakesValue::Forbidden }),
{
    Arg { short: Some(82u8), long: "recurse", takes_value: TakesValue::Forbidden }
}

/// `--tree` (`-T`): recurse into directories as a tree.
#[verifier::allow_in_spec]
pub fn tree() -> Arg
    returns
        (Arg { short: Some(84u8), long: "tree", takes_value: TakesValue::Forbidden }),
{
    Arg { short: Some(84u8), long: "tree", takes_value: TakesValue::Forbidden }
}

/// `--classify` (`-F`): display type indicators by file names.
#[verifier::allow_in_spec]
pub fn classify() -> Arg
    returns
        (Arg { short: Some(70u8), long: "classify", takes_value: TakesValue::Forbidden }),
{
    Arg { short: Some(70u8), long: "classify", takes_value: TakesValue::Forbidden }
}

/// `--color`: when to use terminal colours.
#[verifier::allow_in_spec]
pub fn color() -> Arg
    returns
        (Arg { short: None, long: "color", takes_value: TakesValue::Necessary }),
{
    Arg { short: None, long: "color", takes_value: TakesValue::Necessary }
}

/// `--colour`: when to use terminal colours.
#[verifier::allow_in_spec]
pub fn colour() -> Arg
    returns
        (Arg { short: None, long: "colour", takes_value: TakesValue::Necessary }),
{
    Arg { short: None, long: "colour", takes_value: TakesValue::Necessary }
}

/// `--color-scale`: highlight levels of file sizes distinctly.
#[verifier::allow_in_spec]
pub fn color_scale() -> Arg
    returns
        (Arg { short: None, long: "color-scale", takes_value: TakesValue::Forbidden }),
{
    Arg { short: None, long: "color-scale", takes_value: TakesValue::Forbidden }
}

/// `--colour-scale`: highlight levels of file sizes distinctly.
#[verifier::allow_in_spec]
pub fn colour_scale() -> Arg
    returns
        (Arg { short: None, long: "colour-scale", takes_value: TakesValue::Forbidden }),
{
    Arg { short: None, long: "colour-scale", takes_value: TakesValue::Forbidden }
}

/// `--all` (`-a`): show hidden and dot files.
#[verifier::allow_in_spec]
pub fn all() -> Arg
    returns
        (Arg { short: Some(97u8), long: "all", takes_value: TakesValue::Forbidden }),
{
    Arg { short: Some(97u8), long: "all", takes_value: TakesValue::Forbidden }
}

/// `--list-dirs` (`-d`): list directories as files.
#[verifier::allow_in_spec]
pub fn list_dirs() -> Arg
    returns
        (Arg { short: Some(100u8), long: "list-dirs", takes_value: TakesValue::Forbidden }),
{
    Arg { short: Some(100u8), long: "list-dirs", takes_value: TakesValue::Forbidden }
}

/// `--level` (`-L`): limit the depth of recursion.
#[verifier::allow_in_spec]
pub fn level() -> Arg
    returns
        (Arg { short: Some(76u8), long: "level", takes_value: TakesValue::Necessary }),
{
    Arg { short: Some(76u8), long: "level", takes_value: TakesValue::Necessary }
}

/// `--reverse` (`-r`): reverse the sort order.
#[verifier::allow_in_spec]
pub fn reverse() -> Arg
    returns
        (Arg { short: Some(114u8), long: "reverse", takes_value: TakesValue::Forbidden }),
{
    Arg { short: Some(114u8), long: "reverse", takes_value: TakesValue::Forbidden }
}

/// `--sort` (`-s`): which field to sort by.
#[verifier::allow_in_spec]
pub fn sort() -> Arg
    returns
        (Arg { short: Some(115u8), long: "sort", takes_value: TakesValue::Necessary }),
{
    Arg { short: Some(115u8), long: "sort", takes_value: TakesValue::Necessary }
}

/// `--group-directories-first`: list directories before other files.
#[verifier::allow_in_spec]
pub fn dirs_first() -> Arg
    returns
        (Arg { short: None, long: "group-directories-first", takes_value: TakesValue::Forbidden }),
{
    Arg { short: None, long: "group-directories-first", takes_value: TakesValue::Forbidden }
}

/// `--ignore-glob` (`-I`): glob patterns of files to ignore.
#[verifier::allow_in_spec]
pub fn ignore_glob() -> Arg
    returns
        (Arg { short: Some(73u8), long: "ignore-glob", takes_value: TakesValue::Necessary }),
{
    Arg { short: Some(73u8), long: "ignore-glob", takes_value: TakesValue::Necessary }
}

/// `--git-ignore`: ignore files mentioned in .gitignore.
#[verifier::allow_in_spec]
pub fn git_ignore() -> Arg
    returns
        (Arg { short: None, long: "git-ignore", takes_value: TakesValue::Forbidden }),
{
    Arg { short: None, long: "git-ignore", takes_value: TakesValue::Forbidden }
}

/// `--only-dirs` (`-D`): list only directories.
#[verifier::allow_in_spec]
pub fn only_dirs() -> Arg
    returns
        (Arg { short: Some(68u8), long: "only-dirs", takes_value: TakesValue::Forbidden }),
{
    Arg { short: Some(68u8), long: "only-dirs", takes_value: TakesValue::Forbidden }
}

/// `--binary` (`-b`): list file sizes with binary prefixes.
#[verifier::allow_in_spec]
pub fn binary() -> Arg
    returns
        (Arg { short: Some(98u8), long: "binary", takes_value: TakesValue::Forbidden }),
{
    Arg { short: Some(98u8), long: "binary", takes_value: TakesValue::Forbidden }
}

/// `--bytes` (`-B`): list file sizes in bytes, without prefixes.
#[verifier::allow_in_spec]
pub fn bytes() -> Arg
    returns
        (Arg { short: Some(66u8), long: "bytes", takes_value: TakesValue::Forbidden }),
{
    Arg { short: Some(66u8), long: "bytes", takes_value: TakesValue::Forbidden }
}

/// `--group` (`-g`): list each file's group.
#[verifier::allow_in_spec]
pub fn group() -> Arg
    returns
        (Arg { short: Some(103u8), long: "group", takes_value: TakesValue::Forbidden }),
{
    Arg { short: Some(103u8), long: "group", takes_value: TakesValue::Forbidden }
}

/// `--numeric` (`-n`): list numeric user and group IDs.
#[verifier::allow_in_spec]
pub fn numeric() -> Arg
    returns
        (Arg { short: Some(110u8), long: "numeric", takes_value: TakesValue::Forbidden }),
{
    Arg { short: Some(110u8), long: "numeric", takes_value: TakesValue::Forbidden }
}

/// `--header` (`-h`): add a header row to each column.
#[verifier::allow_in_spec]
pub fn header() -> Arg
    returns
        (Arg { short: Some(104u8), long: "header", takes_value: TakesValue::Forbidden }),
{
    Arg { short: Some(104u8), long: "header", takes_value: TakesValue::Forbidden }
}

/// `--inode` (`-i`): list each file's inode number.
#[verifier::allow_in_spec]
pub fn inode() -> Arg
    returns
        (Arg { short: Some(105u8), long: "inode", takes_value: TakesValue::Forbidden }),
{
    Arg { short: Some(105u8), long: "inode", takes_value: TakesValue::Forbidden }
}

/// `--links` (`-H`): list each file's number of hard links.
#[verifier::allow_in_spec]
pub fn links() -> Arg
    returns
        (Arg { short: Some(72u8), long: "links", takes_value: TakesValue::Forbidden }),
{
    Arg { short: Some(72u8), long: "links", takes_value: TakesValue::Forbidden }
}

/// `--modified` (`-m`): use the modified timestamp field.
#[verifier::allow_in_spec]
pub fn modified() -> Arg
    returns
        (Arg { short: Some(109u8), long: "modified", takes_value: TakesValue::Forbidden }),
{
    Arg { short: Some(109u8), long: "modified", takes_value: TakesValue::Forbidden }
}

/// `--changed`: use the changed timestamp field.
#[verifier::allow_in_spec]
pub fn changed() -> Arg
    returns
        (Arg { short: None, long: "changed", takes_value: TakesValue::Forbidden }),
{
    Arg { short: None, long: "changed", takes_value: TakesValue::Forbidden }
}

/// `--blocks` (`-S`): show the number of file system blocks.
#[verifier::allow_in_spec]
pub fn blocks() -> Arg
    returns
        (Arg { short: Some(83u8), long: "blocks", takes_value: TakesValue::Forbidden }),
{
    Arg { short: Some(83u8), long: "blocks", takes_value: TakesValue::Forbidden }
}

/// `--time` (`-t`): which timestamp field to list.
#[verifier::allow_in_spec]
pub fn time() -> Arg
    returns
        (Arg { short: Some(116u8), long: "time", takes_value: TakesValue::Necessary }),
{
    Arg { short: Some(116u8), long: "time", takes_value: TakesValue::Necessary }
}

/// `--accessed` (`-u`): use the accessed timestamp field.
#[verifier::allow_in_spec]
pub fn accessed() -> Arg
    returns
        (Arg { short: Some(117u8), long: "accessed", takes_value: TakesValue::Forbidden }),
{
    Arg { short: Some(117u8), long: "accessed", takes_value: TakesValue::Forbidden }
}

/// `--created` (`-U`): use the created timestamp field.
#[verifier::allow_in_spec]
pub fn created() -> Arg
    returns
        (Arg { short: Some(85u8), long: "created", takes_value: TakesValue::Forbidden }),
{
    Arg { short: Some(85u8), long: "created", takes_value: TakesValue::Forbidden }
}

/// `--time-style`: how to format timestamps.
#[verifier::allow_in_spec]
pub fn time_style() -> Arg
    returns
        (Arg { short: None, long: "time-style", takes_value: TakesValue::Necessary }),
{
    Arg { short: None, long: "time-style", takes_value: TakesValue::Necessary }
}

/// `--no-permissions`: suppress the permissions field.
#[verifier::allow_in_spec]
pub fn no_permissions() -> Arg
    returns
        (Arg { short: None, long: "no-permissions", takes_value: TakesValue::Forbidden }),
{
    Arg { short: None, long: "no-permissions", takes_value: TakesValue::Forbidden }
}

/// `--no-filesize`: suppress the file size field.
#[verifier::allow_in_spec]
pub fn no_filesize() -> Arg
    returns
        (Arg { short: None, long: "no-filesize", takes_value: TakesValue::Forbidden }),
{
    Arg { short: None, long: "no-filesize", takes_value: TakesValue::Forbidden }
}

/// `--no-user`: suppress the user field.
#[verifier::allow_in_spec]
pub fn no_user() -> Arg
    returns
        (Arg { short: None, long: "no-user", takes_value: TakesValue::Forbidden }),
{
    Arg { short: None, long: "no-user", takes_value: TakesValue::Forbidden }
}

/// `--no-time`: suppress the time field.
#[verifier::allow_in_spec]
pub fn no_time() -> Arg
    returns
        (Arg { short: None, long: "no-time", takes_value: TakesValue::Forbidden }),
{
    Arg { short: None, long: "no-time", takes_value: TakesValue::Forbidden }
}

/// `--git`: list each file's Git status.
#[verifier::allow_in_spec]
pub fn git() -> Arg
    returns
        (Arg { short: None, long: "git", takes_value: TakesValue::Forbidden }),
{
    Arg { short: None, long: "git", takes_value: TakesValue::Forbidden }
}

/// `--extended` (`-@`): list each file's extended attributes and sizes.
#[verifier::allow_in_spec]
pub fn extended() -> Arg
    returns
        (Arg { short: Some(64u8), long: "extended", takes_value: TakesValue::Forbidden }),
{
    Arg { short: Some(64u8), long: "extended", takes_value: TakesValue::Forbidden }
}

/// `--octal-permissions`: list each file's permissions in octal.
#[verifier::allow_in_spec]
pub fn octal() -> Arg
    returns
        (Arg { short: None, long: "octal-permissions", takes_value: TakesValue::Forbidden }),
{
    Arg { short: None, long: "octal-permissions", takes_value: TakesValue::Forbidden }
}

/// Every option, in the order they are looked up.
pub open spec fn spec_all_args() -> Seq<Arg> {
    seq![version(), help(), one_line(), long(), grid(), across(), recurse(), tree(), classify(), color(), colour(), color_scale(), colour_scale(), all(), list_dirs(), level(), reverse(), sort(), dirs_first(), ignore_glob(), git_ignore(), only_dirs(), binary(), bytes(), group(), numeric(), header(), inode(), links(), modified(), changed(), blocks(), time(), accessed(), created(), time_style(), no_permissions(), no_filesize(), no_user(), no_time(), git(), extended(), octal()
    ]
}

/// Every option that the command line understands.
pub fn all_args() -> (r: Args)
    ensures
        r.0@ == spec_all_args(),
{
    let v = vec![version(), help(), one_line(), long(), grid(), across(), recurse(), tree(), classify(), color(), colour(), color_scale(), colour_scale(), all(), list_dirs(), level(), reverse(), sort(), dirs_first(), ignore_glob(), git_ignore(), only_dirs(), binary(), bytes(), group(), numeric(), header(), inode(), links(), modified(), changed(), blocks(), time(), accessed(), created(), time_style(), no_permissions(), no_filesize(), no_user(), no_time(), git(), extended(), octal()];
    assert(v@ =~= spec_all_args());
    Args(v)
}

} // verus!
