//! A Markdown store: Markdown files on disk stay the editing source of truth,
//! while an indexed store keeps their bodies and metadata for search.
//!
//! This crate holds the decisions of the store: how a directory is compared
//! with the store's records, what a sync or an import writes, how a stored
//! document is built from a file, and how a health report is assembled.

pub mod mdstore;
