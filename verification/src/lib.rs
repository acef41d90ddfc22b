//! Unified indexing and ranked full-text search over the chat histories that
//! local coding-assistant tools leave on disk.
//!
//! The crate normalizes each tool's on-disk format into one canonical
//! conversation shape, writes one document per message into a tantivy index
//! with schema-versioned rebuilds and cooperative segment merging, and ranks
//! hits by a blend of textual match quality and recency.

pub mod connectors;
pub mod index;
pub mod json;
pub mod model;
pub mod query;
pub mod strutil;
pub mod timeparse;
pub mod ui;
