//! A library for deciding how to list files: it parses command-line
//! options into a checked configuration, and holds the small pieces of
//! formatting logic (colours, columns, sizes, natural sorting) that the
//! listing is built from.

pub mod bytes;
pub mod colours;
pub mod config;
pub mod column;
pub mod file;
pub mod filetype;
pub mod format;
pub mod fs;
pub mod globs;
pub mod info;
pub mod options;
pub mod sort;
pub mod output;
pub mod text;
pub mod xattr;
