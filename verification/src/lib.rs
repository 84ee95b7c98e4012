//! Locates the single canonical audio/video recording inside a meeting
//! folder: the caller observes the folder on disk, and the library decides,
//! with verified logic, which entry (if any) is the recording and which
//! error to report when the folder cannot be used.
//!
//! A lookup runs in three stages: the folder path is resolved and checked
//! to name a directory, the directory's immediate entries are filtered to
//! regular files whose extension is recognized, and among those candidates
//! the one with the lexicographically smallest full path is selected.
//! [`resolve::resolve_recording`] takes the outcome of the caller's
//! observation and carries out every decision; [`extension`] holds the
//! candidate rule's extension matching and [`text`] the ordering it
//! selects by.

pub mod extension;
pub mod resolve;
pub mod text;
