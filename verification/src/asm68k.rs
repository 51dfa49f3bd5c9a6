//! Parsing of 68000-family assembly files.

pub mod parser;
