//! What is known of files from their names alone.

pub mod filetype;
