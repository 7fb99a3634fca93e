//! What the listing does with directories and files, and the values it
//! reads from them.

pub mod dir;
pub mod dir_action;
pub mod fields;
pub mod file;
pub mod git;
pub mod filter;
pub mod ignore;
pub mod order;
pub mod path;
pub mod sorting;
