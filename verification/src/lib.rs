//! Parser for the qBittorrent web API reference document.
//!
//! The library turns the markdown API reference into a typed schema:
//! a tokenizer classifies each line, a tree builder nests the tokens by
//! header level, and a semantic extractor derives API groups, methods,
//! parameter types, return shapes and enumerations from the tree.

use vstd::prelude::*;

pub mod casing;
pub mod md_parser;
pub mod parser;
pub mod text;
pub mod types;

verus! {

/// A structural failure: the document broke one of the conventions that the
/// extractor depends on, and the whole parse is abandoned.
#[derive(Debug, Clone, PartialEq, Eq)]
pub enum ParseError {
    /// A table opened on the final line, so no separator row follows it.
    UnterminatedTable,
    /// The line-scanning budget ran out while tokenizing.
    IterationLimit,
    /// A top-level section that should become a group carries no title.
    MissingGroupTitle,
    /// A group section lacks the sentence naming its URL path segment; the
    /// field names the group whose section is at fault.
    MissingGroupUrl { group: String },
    /// A table stands too early in its section to have a preceding title line.
    MissingTableTitle,
    /// A return-table row names a type that resolves to no known kind; the
    /// field holds the offending type string.
    UnresolvedReturnType { type_text: String },
}

} // verus!
