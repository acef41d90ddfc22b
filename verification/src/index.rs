//! The on-disk search index: document construction, schema, writer lifecycle
//! and the cooperative segment-merge policy.

pub mod doc;
pub mod merge;
pub mod schema;
pub mod writer;

use vstd::prelude::*;

verus! {

/// Errors surfaced by the index writer lifecycle.
#[derive(Debug)]
pub enum IndexError {
    /// The compiled schema lacks the named field.
    MissingField(String),
    /// The underlying index library reported a failure, with its text.
    Backend(String),
}

} // verus!
