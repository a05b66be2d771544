//! A lexical scanner for a small C-like scripting language.
//!
//! The scanner turns source text into an ordered sequence of tokens. Every
//! executable function carries a contract stated over the mathematical model
//! of the lexical rules in [`grammar`].

pub mod error;
pub mod grammar;
pub mod text;
pub mod theorems;
pub mod token;
pub mod token_scanner;
