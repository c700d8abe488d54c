//! A lexical scanner for a small imperative language.
//!
//! The scanner turns raw source text into a sequence of classified,
//! location-tagged tokens using a longest-match, priority-ordered grammar
//! table with exact line/column bookkeeping. [`scanner::tokenize`] is the
//! entry point; its result is pinned down by the specification
//! [`scanner::spec_tokenize`].

pub mod grammar;
pub mod lemmas;
pub mod scanner;
pub mod token;

pub use crate::grammar::{Rule, TokenType};
pub use crate::scanner::tokenize;
pub use crate::token::{Location, Token};
