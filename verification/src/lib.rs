//! Identifiers for the operators and streams of a dataflow graph.
//!
//! An identifier is a 16-byte UUID. Identifiers come either at random
//! (version 4) or from a generator seeded with a fixed seed, so that every
//! thread and every process that draws them in the same order gets the same
//! sequence. An identifier prints in the usual hyphenated lower-case form.

pub mod id;
pub mod outside;
pub mod text;

pub use id::{generate_id, IdGenerator, OperatorId, Uuid};
