//! Converts the chapters of a book written in a DocBook dialect into the
//! Markdown sources of an mdBook, and the book's root document into the
//! summary that links them.
//!
//! A document is read into tokens by an XML pull parser ([`xml`]). A pushdown
//! machine ([`walker`]) takes the tokens one by one: its grammar says what
//! each element admits ([`vocabulary`]), its render state turns text into
//! prefixed, wrapped lines ([`render`]), and identifiers of links are
//! resolved by their shape ([`links`]). [`convert`] runs the machine over a
//! chapter, [`summary`] builds the table of contents.
//!
//! Every function states what it computes over mathematical models of its
//! data: text as `Seq<char>`, raw markup as `Seq<u8>`, each state as a plain
//! structure of those. What the parser yields and what the line wrapping
//! computes is named, not specified: the contracts say how the library uses
//! those results. [`laws`] holds what is proved of whole lists.

pub mod convert;
pub mod error;
pub mod laws;
pub mod links;
pub mod render;
pub mod summary;
pub mod text;
pub mod vocabulary;
pub mod walker;
pub mod xml;
