//! An interactive configuration collector: an ordered list of named settings
//! is shown as a table, edited line by line, and saved as a flat JSON object
//! and a shell-sourceable environment file.
//!
//! The library holds the data model, the decisions of the edit session, and
//! the text of every file and message it produces. Reading lines, writing
//! files and touching the process environment is left to the caller.

pub mod collect;
pub mod laws;
pub mod models;
pub mod persist;
pub mod test_utils;
pub mod text;
