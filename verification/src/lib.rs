//! Sizes of the entries of a directory, each with all that lies below it.
//!
//! The library works on a snapshot of the directory tree ([`entry`]). The
//! walker ([`walker`]) adds up one directory down to a depth ceiling; the
//! collector ([`collector`]) makes one record for each entry of the root,
//! and [`single`] the one record of a single file; [`order`] and [`render`]
//! turn the records into the lines of a table;
//! [`run`] puts a whole run together. Reading the file system and printing
//! are left to the caller.

pub mod clock;
pub mod collector;
pub mod config;
pub mod diagnostic;
pub mod entry;
pub mod order;
pub mod record;
pub mod render;
pub mod run;
pub mod single;
pub mod walker;
