//! Reads a plain-text treatise of books, chapters and paragraphs into a tree,
//! and drives its layered summarization one generation request at a time.

pub mod layout;
pub mod parser;
pub mod reader;
pub mod text;
