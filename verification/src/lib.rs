//! A tokenizer and recursive-descent parser for SQL `SELECT` statements.
//!
//! Query text is cut into extended grapheme clusters, the clusters are
//! grouped into tokens, and the tokens are parsed into a syntax tree.
//! Every function carries a contract that Verus proves.
//!
//! - `token`: the tokens, and the two tests on them that the parser uses.
//! - `lexer`: from text to tokens, with the tokenizer as a spec function.
//! - `ast`: the syntax tree; `views`: what its values hold.
//! - `expression`: the operator-precedence engine.
//! - `grammar`: the grammar as spec functions on tokens.
//! - `parser`: the parser, proved to compute what `grammar` defines.
//! - `number`, `text`, `error`: number literals, strings, and failures.

pub mod token;
pub mod text;
pub mod number;
pub mod lexer;
pub mod ast;
pub mod views;
pub mod error;
pub mod expression;
pub mod grammar;
pub mod parser;
