//! Parsers for the `/proc/<pid>/*` documents the game detector consults.
//!
//! Each parser is a total function from the document's bytes or text to
//! a summary; reading the files is the caller's business.

pub mod environ;
pub mod maps;
pub mod fdinfo;
pub mod tree;
