//! Front end for a small scripting language: a lexer that turns source
//! text into a position-tagged token stream, and a predictive
//! recursive-descent parser that builds an expression tree from it.
//!
//! Both passes are verified against spec-level models: the tokens that
//! [`lexer::Lexer::tokenize`] returns are exactly those of
//! [`lexer::spec_lex`], and the tree that [`parser::Parser::parse`]
//! returns is exactly that of [`parser::sp_program`]. On top of the two
//! models the crate proves, among others, that lexing is deterministic
//! ([`lexer::lemma_lex_deterministic`]), that a punctuation-only source
//! tokenizes to one token per lexeme with the right kinds and columns
//! ([`lexer::lemma_lex_punct_lexemes`]), that token positions never step
//! backwards through the stream
//! ([`lexer::lemma_lex_positions_monotonic`]), and that a successful
//! parse consumes every token ([`parser::lemma_parse_consumes_all`] and
//! the contract of `parse` itself).

pub mod ast;
pub mod errors;
pub mod lexer;
pub mod parser;
pub mod tokens;
pub mod utils;
