//! Front end of the Nexus scripting language: a scanner that turns lines of
//! source into tokens, a token cursor, a recursive-descent parser that builds
//! the syntax tree, and a readable text form of that tree.
//!
//! `lexicon` states the lexical grammar that `scanner` is proved to follow;
//! `spelling` states the tokens a syntax tree stands for, which `parser` is
//! proved to consume exactly.

pub mod text;
pub mod token;
pub mod source_line;
pub mod cursor;
pub mod scan_error;
pub mod lexicon;
pub mod scanner;
pub mod parse_error;
pub mod ptr;
pub mod ast;
pub mod spelling;
pub mod token_cursor;
pub mod parser;
pub mod accepted;
pub mod pretty;
