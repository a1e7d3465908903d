//! The Markdown store's modules.

pub mod db;
pub mod doctor;
pub mod error;
pub mod files;
pub mod hash;
pub mod ingest;
pub mod status;
pub mod store;
pub mod sync;
