//! The parser: turns the tokens of a DSDL file into its abstract syntax.

pub mod error;
pub mod grammar;
pub mod lines;
pub mod definition;
pub mod relex;
pub mod roundtrip;
