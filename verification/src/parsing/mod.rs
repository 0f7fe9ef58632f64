//! Parsing of source text.
pub mod declarations;
pub mod expressions;
pub mod parser;
pub mod scanner;
pub mod statements;
pub mod token_text;
