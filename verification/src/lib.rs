//! Storage-reconciliation core for cover-art assets of a music library.
//!
//! Cover art lives in three places: inline payloads in store rows, content
//! files on disk, and path pointers in rows referencing those files. The
//! library migrates inline payloads to content-addressed files, synchronizes
//! path pointers with files found on disk, and merges byte-identical cover
//! files per album, rewriting every referencing row to one canonical file.
//!
//! File and directory access stays with the caller: the engines receive
//! directory listings as values and file operations as functions, and hold
//! the store connection only while querying or updating rows.

pub mod bytes;
pub mod boundary;
pub mod bucket;
pub mod dedup;
pub mod engine;
pub mod hashing;
pub mod merge;
pub mod paths;
pub mod records;
pub mod state;
pub mod store;
pub mod sync;
