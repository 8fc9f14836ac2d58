//! A lexical scanner for a small scripting language: raw source bytes in,
//! an ordered sequence of typed tokens out, with every lexical error collected
//! along the way instead of stopping at the first one.
pub mod error;
pub mod grammar;
pub mod laws;
pub mod scanner;
pub mod token;
