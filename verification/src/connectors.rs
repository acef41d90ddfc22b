//! Connectors: one module per supported agent, each mapping that agent's
//! on-disk format into the canonical conversation shape.
//!
//! The connectors here hold the parsing and normalization logic on plain
//! values; walking directories and reading files is the host's side of the
//! split, which hands each connector the file's path, text and modification
//! time.

pub mod aider;
pub mod cline;
pub mod envelope;
