//! Reference parsing and retrieval engine for a verse corpus.
//!
//! The crate turns free-text citations such as `"John 3:16"` or `"jhn.1.1"`
//! into structured references, resolves book-name tokens against an
//! abbreviation table, retrieves bounded, ordered verse ranges from an
//! in-memory store, and sanitizes free-text search queries into safe
//! full-text-search expressions.  Storage access itself (loading the corpus,
//! running a full-text index) is left to the caller.

use vstd::prelude::*;

pub mod data;
pub mod error;
pub mod json_ld;
pub mod link;
pub mod meta;
pub mod models;
pub mod reference;
pub mod sword_drill;
pub mod text;

pub use crate::sword_drill::{SwordDrill, VerseStore};

verus! {

/// Result formats for verses.
pub enum VerseFormat {
    /// Literal HTML.
    Html,
    /// Plain text with no special formatting.
    PlainText,
}

/// Errors produced by the engine.
#[derive(Clone, Debug)]
pub enum DbError {
    /// The book token matched no abbreviation.
    BookNotFound { book: String },
    /// The storage layer's connection pool failed.
    ConnectionPool { cause: String },
    /// Any other storage failure, wrapped as an opaque cause string.
    Other { cause: String },
    /// A storage migration failed.
    Migration { cause: String },
    /// The citation string failed the parse grammar.
    InvalidReference { reference: String },
}

} // verus!
