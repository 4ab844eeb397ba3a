//! Binary parsing utilities shared by the font table parsers.

pub mod parser;
