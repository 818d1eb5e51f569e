//! A lexical scanner for a small C-like scripting language.
//!
//! The library turns raw source text into a stream of classified tokens:
//! one call to [`lexer::Lexer::next_token`] yields one token and advances
//! the cursor past it. The token model is a closed set of categories
//! ([`token::TokenType`]) together with the exact source literal that
//! produced each token.

pub mod lexer;
pub mod token;
