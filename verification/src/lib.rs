//! Backend core of a local developer tool that lets an editor or assistant
//! inspect a directory tree, fetch file contents, and apply a multi-file
//! unified-diff-style patch payload against a base directory.
//!
//! The crate holds the verified logic: splitting a combined patch payload
//! into per-file change records, classifying each record, screening its
//! hunk text and settling the fuzzy patch engine's report on it,
//! stripping diff path prefixes, building an ignore-aware directory tree
//! with natural ordering, and shaping the per-path results of a batch
//! file read. Filesystem reads and writes, the engine run itself, and
//! the HTTP transport around them live outside the library and hand it
//! plain values.

pub mod text;
pub mod paths;
pub mod split;
pub mod screen;
pub mod patch;
pub mod outcome;
pub mod batch;
pub mod order;
pub mod tree;
